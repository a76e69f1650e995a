//! Process control blocks: exit status and the process-local typed cache.

use vstd::prelude::*;
use crate::thread::ProcessID;

verus! {

/// Opaque identifier of a type, as the process-local cache keys its entries.
pub type TypeToken = u64;

/// Mathematical value of a process control block.
pub struct ProcessView {
    pub pid: ProcessID,
    /// The exit status, once some thread has written it.
    pub exit_status: Option<u32>,
    /// The types that have an instance in the process-local cache, in the
    /// order in which the instances were created.
    pub local_types: Seq<TypeToken>,
    /// The number of threads that refer to the process.
    pub refs: nat,
}

impl ProcessView {
    /// The cache holds at most one instance of each type.
    pub open spec fn wf(self) -> bool {
        self.local_types.no_duplicates()
    }

    /// True when a write of the exit status is refused: one has been
    /// written.
    pub open spec fn exit_refused(self) -> bool {
        self.exit_status is Some
    }

    /// The process after a write of the exit status: the first write
    /// stays, a later one changes nothing.
    pub open spec fn exit_written(self, status: u32) -> ProcessView {
        if self.exit_refused() {
            self
        } else {
            ProcessView { exit_status: Some(status), ..self }
        }
    }
}

/// A process control block, shared by all threads of the process.
pub struct Process {
    pid: ProcessID,
    exit_status: Option<u32>,
    proc_local_data: Vec<TypeToken>,
    refs: usize,
}

/// A second thread tried to write the exit status of a process.
#[derive(Clone, Copy, Debug, PartialEq, Eq, Structural)]
pub struct ExitRace;

/// Where the process-local instance of a type lives.
#[derive(Clone, Copy, Debug, PartialEq, Eq, Structural)]
pub struct LocalSlot {
    /// Position of the instance in the cache.
    pub index: usize,
    /// True when the request made the slot and the caller has to fill it
    /// with a default instance.
    pub created: bool,
}

/// `i` is the slot of `token`: the first position that holds it, or the end
/// of the cache when no position does.
pub open spec fn is_local_index(types: Seq<TypeToken>, token: TypeToken, i: int) -> bool {
    &&& 0 <= i <= types.len()
    &&& forall|j: int| 0 <= j < i ==> types[j] != token
    &&& i < types.len() ==> types[i] == token
}

/// The cache after a request for `token`: unchanged when the type has an
/// instance, one slot longer when it has none.
pub open spec fn cache_after_request(types: Seq<TypeToken>, token: TypeToken) -> Seq<TypeToken> {
    if types.contains(token) {
        types
    } else {
        types.push(token)
    }
}

/// A type has one slot, and a request never moves it.
pub proof fn lemma_local_index_unique(types: Seq<TypeToken>, token: TypeToken, i: int, j: int)
    requires
        is_local_index(types, token, i),
        is_local_index(types, token, j),
    ensures
        i == j,
        i < types.len() <==> types.contains(token),
{
    if i < j {
        assert(types[i] == token);
    }
    if j < i {
        assert(types[j] == token);
    }
    if types.contains(token) {
        let k = choose|k: int| 0 <= k < types.len() && types[k] == token;
        assert(types[k] == token);
    }
}

/// Single instance: two requests for a type, whether or not it had an
/// instance before the first, are answered with the same slot, and the
/// second request leaves the cache as the first left it. No request ever
/// gives a type a second slot.
pub proof fn lemma_requests_share_one_instance(
    types: Seq<TypeToken>,
    token: TypeToken,
    first: int,
    second: int,
)
    requires
        types.no_duplicates(),
        is_local_index(types, token, first),
        is_local_index(cache_after_request(types, token), token, second),
    ensures
        first == second,
        cache_after_request(types, token).contains(token),
        cache_after_request(types, token).no_duplicates(),
        cache_after_request(cache_after_request(types, token), token) == cache_after_request(
            types,
            token,
        ),
{
    let after = cache_after_request(types, token);
    lemma_local_index_unique(types, token, first, first);
    if types.contains(token) {
        lemma_local_index_unique(types, token, first, second);
    } else {
        assert(after[types.len() as int] == token);
        assert(is_local_index(after, token, types.len() as int));
        lemma_local_index_unique(after, token, second, types.len() as int);
    }
    assert(after.contains(token)) by {
        assert(after[first] == token);
    }
}

/// An exit status is written once: of two writes to one process, the
/// first succeeds and stays, and the second is refused and changes nothing.
pub proof fn lemma_exit_status_is_written_once(p: ProcessView, first: u32, second: u32)
    requires
        p.exit_status is None,
    ensures
        !p.exit_refused(),
        p.exit_written(first).exit_status == Some(first),
        p.exit_written(first).exit_refused(),
        p.exit_written(first).exit_written(second) == p.exit_written(first),
{
}

impl View for Process {
    type V = ProcessView;

    closed spec fn view(&self) -> ProcessView {
        ProcessView {
            pid: self.pid,
            exit_status: self.exit_status,
            local_types: self.proc_local_data@,
            refs: self.refs as nat,
        }
    }
}

impl Process {
    /// A process that no thread refers to yet, with no exit status and an
    /// empty cache.
    pub fn new(pid: ProcessID) -> (p: Process)
        ensures
            p@ == (ProcessView {
                pid,
                exit_status: None,
                local_types: Seq::empty(),
                refs: 0,
            }),
            p@.wf(),
    {
        Process { pid, exit_status: None, proc_local_data: Vec::new(), refs: 0 }
    }

    /// The kernel's own process.
    pub fn new_pid0() -> (p: Process)
        ensures
            p@ == (ProcessView {
                pid: 0,
                exit_status: None,
                local_types: Seq::empty(),
                refs: 0,
            }),
            p@.wf(),
    {
        Process::new(0)
    }

    /// The process's identity.
    pub fn get_pid(&self) -> (pid: ProcessID)
        ensures
            pid == self@.pid,
    {
        self.pid
    }

    /// The exit status, if one has been written.
    pub fn get_exit_status(&self) -> (status: Option<u32>)
        ensures
            status == self@.exit_status,
    {
        self.exit_status
    }

    /// Writes the exit status, once. The first writer succeeds; every later
    /// one gets `ExitRace` and changes nothing.
    pub fn mark_exit(&mut self, status: u32) -> (r: Result<(), ExitRace>)
        ensures
            r is Err <==> old(self)@.exit_refused(),
            final(self)@ == old(self)@.exit_written(status),
    {
        if self.exit_status.is_some() {
            Err(ExitRace)
        } else {
            self.exit_status = Some(status);
            Ok(())
        }
    }

    /// Looks a type up without changing the cache: the slot of its instance,
    /// or `None` when it has none.
    pub fn find_local(&self, token: TypeToken) -> (slot: Option<usize>)
        ensures
            slot is Some <==> self@.local_types.contains(token),
            slot is Some ==> (slot->0 as int) < self@.local_types.len() && is_local_index(
                self@.local_types,
                token,
                slot->0 as int,
            ),
    {
        let mut i: usize = 0;
        while i < self.proc_local_data.len()
            invariant
                0 <= i <= self.proc_local_data@.len(),
                forall|j: int| 0 <= j < i ==> self.proc_local_data@[j] != token,
            decreases self.proc_local_data@.len() - i,
        {
            if self.proc_local_data[i] == token {
                return Some(i);
            }
            i += 1;
        }
        None
    }

    /// Looks a type up and gives it a slot at the end of the cache when it
    /// has none. The scan comes first, so a type that got its instance after
    /// an earlier read-only lookup failed is found, not duplicated.
    pub fn find_or_create_local(&mut self, token: TypeToken) -> (slot: LocalSlot)
        requires
            old(self)@.wf(),
        ensures
            final(self)@ == (ProcessView {
                local_types: cache_after_request(old(self)@.local_types, token),
                ..old(self)@
            }),
            final(self)@.wf(),
            is_local_index(old(self)@.local_types, token, slot.index as int),
            is_local_index(final(self)@.local_types, token, slot.index as int),
            slot.created == !old(self)@.local_types.contains(token),
            final(self)@.local_types[slot.index as int] == token,
    {
        match self.find_local(token) {
            Some(index) => LocalSlot { index, created: false },
            None => {
                let index = self.proc_local_data.len();
                self.proc_local_data.push(token);
                proof {
                    let old_types = old(self)@.local_types;
                    let new_types = self@.local_types;
                    assert forall|i: int, j: int|
                        0 <= i < new_types.len() && 0 <= j < new_types.len() && i != j implies new_types[i]
                        != new_types[j] by {
                        if i < old_types.len() {
                            assert(old_types.contains(new_types[i]));
                        }
                        if j < old_types.len() {
                            assert(old_types.contains(new_types[j]));
                        }
                    }
                }
                LocalSlot { index, created: true }
            },
        }
    }

    /// The number of threads that refer to the process.
    pub fn thread_count(&self) -> (n: usize)
        ensures
            n == self@.refs,
    {
        self.refs
    }

    /// Counts one more thread.
    pub(crate) fn add_ref(&mut self)
        requires
            old(self)@.refs < usize::MAX,
        ensures
            final(self)@ == (ProcessView { refs: old(self)@.refs + 1, ..old(self)@ }),
    {
        self.refs = self.refs + 1;
    }

    /// Counts one thread less.
    pub(crate) fn drop_ref(&mut self)
        requires
            old(self)@.refs > 0,
        ensures
            final(self)@ == (ProcessView { refs: (old(self)@.refs - 1) as nat, ..old(self)@ }),
    {
        self.refs = self.refs - 1;
    }
}

} // verus!
