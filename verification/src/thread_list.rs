//! First-in, first-out lists of thread handles.

use vstd::prelude::*;
use std::collections::VecDeque;
use crate::thread::{ThreadID, ThreadPtr};

verus! {

/// An ordered list of thread handles: handles leave in the order they came.
pub struct ThreadList {
    items: VecDeque<ThreadPtr>,
}

/// One operation on a list, for statements about whole histories.
pub enum ListOp {
    /// Append the handle of this thread.
    Push(ThreadID),
    /// Remove the front handle, if there is one.
    Pop,
}

/// The list after one operation.
pub open spec fn list_after(list: Seq<ThreadID>, op: ListOp) -> Seq<ThreadID> {
    match op {
        ListOp::Push(tid) => list.push(tid),
        ListOp::Pop => if list.len() == 0 {
            list
        } else {
            list.drop_first()
        },
    }
}

/// What one operation hands out: a pop of a non-empty list gives its front.
pub open spec fn list_output(list: Seq<ThreadID>, op: ListOp) -> Option<ThreadID> {
    match op {
        ListOp::Push(_) => None,
        ListOp::Pop => if list.len() == 0 {
            None
        } else {
            Some(list[0])
        },
    }
}

/// The list after a history of operations on an empty list.
pub open spec fn replay_list(ops: Seq<ListOp>) -> Seq<ThreadID>
    decreases ops.len(),
{
    if ops.len() == 0 {
        Seq::empty()
    } else {
        list_after(replay_list(ops.drop_last()), ops.last())
    }
}

/// Everything that the pops of a history handed out, in order.
pub open spec fn replay_popped(ops: Seq<ListOp>) -> Seq<ThreadID>
    decreases ops.len(),
{
    if ops.len() == 0 {
        Seq::empty()
    } else {
        match list_output(replay_list(ops.drop_last()), ops.last()) {
            Some(tid) => replay_popped(ops.drop_last()).push(tid),
            None => replay_popped(ops.drop_last()),
        }
    }
}

/// Everything that a history pushed, in order.
pub open spec fn replay_pushed(ops: Seq<ListOp>) -> Seq<ThreadID>
    decreases ops.len(),
{
    if ops.len() == 0 {
        Seq::empty()
    } else {
        match ops.last() {
            ListOp::Push(tid) => replay_pushed(ops.drop_last()).push(tid),
            ListOp::Pop => replay_pushed(ops.drop_last()),
        }
    }
}

/// First in, first out: after any history of pushes and pops, what was
/// popped followed by what is still listed is exactly what was pushed, in
/// the order it was pushed. The list is empty exactly when every push has
/// been matched by a pop that handed its thread out.
pub proof fn lemma_list_is_fifo(ops: Seq<ListOp>)
    ensures
        replay_popped(ops) + replay_list(ops) == replay_pushed(ops),
        replay_list(ops).len() == 0 <==> replay_popped(ops).len() == replay_pushed(ops).len(),
    decreases ops.len(),
{
    if ops.len() == 0 {
        assert(replay_popped(ops) + replay_list(ops) =~= replay_pushed(ops));
    } else {
        let before = ops.drop_last();
        lemma_list_is_fifo(before);
        let list = replay_list(before);
        let popped = replay_popped(before);
        match ops.last() {
            ListOp::Push(tid) => {
                assert(popped + list.push(tid) =~= (popped + list).push(tid));
            },
            ListOp::Pop => {
                if list.len() > 0 {
                    assert(popped.push(list[0]) + list.drop_first() =~= popped + list);
                }
            },
        }
    }
}

impl View for ThreadList {
    type V = Seq<ThreadID>;

    closed spec fn view(&self) -> Seq<ThreadID> {
        self.items@.map_values(|p: ThreadPtr| p.id())
    }
}

impl ThreadList {
    /// An empty list.
    pub fn new() -> (list: ThreadList)
        ensures
            list@ == Seq::<ThreadID>::empty(),
    {
        let list = ThreadList { items: VecDeque::new() };
        assert(list@ =~= Seq::<ThreadID>::empty());
        list
    }

    /// Appends a handle at the back.
    pub fn push(&mut self, thread: ThreadPtr)
        ensures
            final(self)@ == old(self)@.push(thread.id()),
            final(self)@ == list_after(old(self)@, ListOp::Push(thread.id())),
    {
        self.items.push_back(thread);
        assert(self@ =~= old(self)@.push(thread.id()));
    }

    /// Removes the front handle and returns it; `None` when the list is empty.
    pub fn pop(&mut self) -> (front: Option<ThreadPtr>)
        ensures
            old(self)@.len() == 0 ==> front is None && final(self)@ == old(self)@,
            old(self)@.len() > 0 ==> front is Some && front->0.id() == old(self)@[0],
            old(self)@.len() > 0 ==> final(self)@ == old(self)@.drop_first(),
            final(self)@ == list_after(old(self)@, ListOp::Pop),
            (match front {
                Some(p) => Some(p.id()),
                None => None,
            }) == list_output(old(self)@, ListOp::Pop),
    {
        let front = self.items.pop_front();
        assert(self@ =~= list_after(old(self)@, ListOp::Pop));
        front
    }

    /// True when no handle is listed.
    pub fn empty(&self) -> (e: bool)
        ensures
            e == (self@.len() == 0),
    {
        self.items.len() == 0
    }

    /// The thread whose handle is at the front; `None` when the list is
    /// empty.
    pub fn front(&self) -> (tid: Option<ThreadID>)
        ensures
            tid == (if self@.len() == 0 {
                None
            } else {
                Some(self@[0])
            }),
    {
        if self.items.len() == 0 {
            None
        } else {
            Some(self.items[0].get_tid())
        }
    }

    /// True when the handle of thread `tid` is listed.
    pub fn contains(&self, tid: ThreadID) -> (found: bool)
        ensures
            found == self@.contains(tid),
    {
        let mut i: usize = 0;
        while i < self.items.len()
            invariant
                0 <= i <= self.items@.len(),
                forall|j: int| 0 <= j < i ==> self@[j] != tid,
            decreases self.items@.len() - i,
        {
            if self.items[i].get_tid() == tid {
                assert(self@[i as int] == tid);
                return true;
            }
            i += 1;
        }
        false
    }

    /// The number of handles listed.
    pub fn len(&self) -> (n: usize)
        ensures
            n == self@.len(),
    {
        self.items.len()
    }
}

} // verus!
