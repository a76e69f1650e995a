//! The network interface layer: packets in pieces, and the list of
//! registered interfaces with their receive workers.

use vstd::prelude::*;
use vstd::pervasive::unreached;
use crate::scheduler::{Scheduler, SpawnError};

use crate::thread::ThreadID;
use crate::worker_thread::{JoinStep, WorkerThread};

verus! {

/// What can go wrong on a network interface.
#[derive(Clone, Copy, Debug, PartialEq, Eq, Structural)]
pub enum Error {
    /// No packets waiting
    NoPacket,
    /// An oversized packet was received
    MtuExceeded,
    /// Not enough space avaliable for the packet
    BufferUnderrun,
}

/// A packet in pieces: a region of bytes and, maybe, the packet that
/// follows it. Used for scatter-gather transfers.
pub struct SparsePacket<'a> {
    head: &'a [u8],
    next: Option<&'a SparsePacket<'a>>,
}

/// Walks the regions of a packet, front to back.
pub struct SparsePacketIter<'a>(Option<&'a SparsePacket<'a>>);

impl<'a> SparsePacket<'a> {
    /// The regions of the packet, front to back.
    pub closed spec fn regions(&self) -> Seq<Seq<u8>>
        decreases self,
    {
        match self.next {
            None => seq![self.head@],
            Some(rest) => seq![self.head@] + rest.regions(),
        }
    }

    /// A packet that begins with `head` and goes on with `next`.
    pub fn new(head: &'a [u8], next: Option<&'a SparsePacket<'a>>) -> (pkt: SparsePacket<'a>)
        ensures
            pkt.regions() == (match next {
                None => seq![head@],
                Some(rest) => seq![head@] + rest.regions(),
            }),
    {
        SparsePacket { head, next }
    }

    /// Starts a walk over the regions of the packet.
    pub fn into_iter(&'a self) -> (iter: SparsePacketIter<'a>)
        ensures
            iter.remaining() == self.regions(),
    {
        SparsePacketIter(Some(self))
    }
}

impl<'a> SparsePacketIter<'a> {
    /// The regions that the walk has not handed out yet.
    pub closed spec fn remaining(&self) -> Seq<Seq<u8>> {
        match self.0 {
            None => Seq::empty(),
            Some(pkt) => pkt.regions(),
        }
    }

    /// Hands out the next region; `None` when the walk is over.
    pub fn next(&mut self) -> (region: Option<&'a [u8]>)
        ensures
            old(self).remaining().len() == 0 ==> region is None && final(self).remaining()
                == old(self).remaining(),
            old(self).remaining().len() > 0 ==> region is Some && region->0@ == old(
                self,
            ).remaining()[0],
            old(self).remaining().len() > 0 ==> final(self).remaining() == old(
                self,
            ).remaining().drop_first(),
    {
        let p = match self.0 {
            None => {
                return None;
            },
            Some(p) => p,
        };
        proof {
            match p.next {
                None => {
                    assert(p.regions().drop_first() =~= Seq::<Seq<u8>>::empty());
                },
                Some(rest) => {
                    assert(p.regions().drop_first() =~= rest.regions());
                },
            }
        }
        self.0 = p.next;
        Some(p.head)
    }
}

/// The frame that probes a new interface, before the sender's address is
/// filled in: an ARP request from 10.0.2.15 for 10.0.2.2, broadcast.
pub open spec fn probe_template() -> Seq<u8> {
    seq![
        0xFF, 0xFF, 0xFF, 0xFF, 0xFF, 0xFF,
        0x00, 0x00, 0x00, 0x00, 0x00, 0x00,
        0x08, 0x06,
        0x00, 0x01,
        0x08, 0x00,
        0x06, 0x04,
        0x00, 0x01,
        0x52, 0x54, 0x00, 0x12, 0x34, 0x56,
        0x0A, 0x00, 0x02, 0x0F,
        0xFF, 0xFF, 0xFF, 0xFF, 0xFF, 0xFF,
        0x0A, 0x00, 0x02, 0x02,
    ]
}

/// The probe frame of the interface with address `mac_addr`: the template
/// with the address as the frame's source, bytes 6 to 11.
pub open spec fn probe_frame(mac_addr: Seq<u8>) -> Seq<u8> {
    probe_template().subrange(0, 6) + mac_addr + probe_template().subrange(12, 42)
}

/// Builds the frame that probes a new interface.
pub fn build_probe(mac_addr: &[u8; 6]) -> (frame: Vec<u8>)
    ensures
        frame@ == probe_frame(mac_addr@),
        frame@.len() == 42,
{
    let mut frame: Vec<u8> = vec![
        0xFF, 0xFF, 0xFF, 0xFF, 0xFF, 0xFF,
        0x00, 0x00, 0x00, 0x00, 0x00, 0x00,
        0x08, 0x06,
        0x00, 0x01,
        0x08, 0x00,
        0x06, 0x04,
        0x00, 0x01,
        0x52, 0x54, 0x00, 0x12, 0x34, 0x56,
        0x0A, 0x00, 0x02, 0x0F,
        0xFF, 0xFF, 0xFF, 0xFF, 0xFF, 0xFF,
        0x0A, 0x00, 0x02, 0x02,
    ];
    assert(frame@ =~= probe_template());
    let mut i: usize = 0;
    while i < 6
        invariant
            0 <= i <= 6,
            frame@.len() == 42,
            forall|j: int| 0 <= j < 6 || 6 + i <= j < 42 ==> frame@[j] == probe_template()[j],
            forall|j: int| 0 <= j < i ==> frame@[6 + j] == mac_addr@[j],
        decreases 6 - i,
    {
        frame[6 + i] = mac_addr[i];
        i += 1;
    }
    assert(frame@ =~= probe_frame(mac_addr@));
    frame
}

/// The registered interfaces: slot by slot, the receive worker of the
/// interface in the slot. A slot is free once its interface has gone, and
/// is used again.
pub struct InterfaceList {
    slots: Vec<Option<WorkerThread>>,
}

/// Handle to a registered interface: the slot that it has in the list.
#[derive(Debug)]
pub struct Registration {
    index: usize,
}

/// The thread of the worker in a slot.
pub open spec fn slot_worker(slot: Option<WorkerThread>) -> Option<ThreadID> {
    match slot {
        Some(w) => Some(w.id()),
        None => None,
    }
}

/// `i` is the first free slot of the list, or its length when no slot is
/// free.
pub open spec fn is_first_free(slots: Seq<Option<ThreadID>>, i: int) -> bool {
    &&& 0 <= i <= slots.len()
    &&& forall|j: int| 0 <= j < i ==> (#[trigger] slots[j]) is Some
    &&& i < slots.len() ==> slots[i] is None
}

/// The list with `worker` in slot `i`, which is a slot of the list or the
/// one after its last.
pub open spec fn with_interface(slots: Seq<Option<ThreadID>>, i: int, worker: ThreadID) -> Seq<
    Option<ThreadID>,
> {
    if i < slots.len() {
        slots.update(i, Some(worker))
    } else {
        slots.push(Some(worker))
    }
}

impl View for InterfaceList {
    type V = Seq<Option<ThreadID>>;

    closed spec fn view(&self) -> Seq<Option<ThreadID>> {
        self.slots@.map_values(|slot: Option<WorkerThread>| slot_worker(slot))
    }
}

impl InterfaceList {
    /// A list without interfaces.
    pub fn new() -> (list: InterfaceList)
        ensures
            list@ == Seq::<Option<ThreadID>>::empty(),
    {
        let list = InterfaceList { slots: Vec::new() };
        assert(list@ =~= Seq::<Option<ThreadID>>::empty());
        list
    }

    /// The number of slots, free or not.
    pub fn len(&self) -> (n: usize)
        ensures
            n == self@.len(),
    {
        self.slots.len()
    }

    /// True when an interface is registered in slot `index`.
    pub fn is_registered(&self, index: usize) -> (registered: bool)
        ensures
            registered == (index < self@.len() && self@[index as int] is Some),
    {
        index < self.slots.len() && self.slots[index].is_some()
    }

    /// The thread of the receive worker in slot `index`, if an interface
    /// is registered there.
    pub fn worker(&self, index: usize) -> (worker: Option<ThreadID>)
        ensures
            worker == (if index < self@.len() {
                self@[index as int]
            } else {
                None
            }),
    {
        if index >= self.slots.len() {
            return None;
        }
        match &self.slots[index] {
            Some(w) => Some(w.get_tid()),
            None => None,
        }
    }

    /// Puts a worker into the first free slot, or into a new slot at the
    /// end when none is free, and returns the slot.
    pub fn insert(&mut self, worker: WorkerThread) -> (index: usize)
        ensures
            is_first_free(old(self)@, index as int),
            final(self)@ == with_interface(old(self)@, index as int, worker.id()),
    {
        let mut i: usize = 0;
        while i < self.slots.len()
            invariant
                0 <= i <= self.slots@.len(),
                self@ == old(self)@,
                forall|j: int| 0 <= j < i ==> (#[trigger] self@[j]) is Some,
            decreases self.slots@.len() - i,
        {
            if self.slots[i].is_none() {
                self.slots[i] = Some(worker);
                assert(self@ =~= with_interface(old(self)@, i as int, worker.id()));
                return i;
            }
            i += 1;
        }
        self.slots.push(Some(worker));
        assert(self@ =~= with_interface(old(self)@, i as int, worker.id()));
        i
    }
}

impl Registration {
    /// The slot that the interface has in the list.
    pub closed spec fn slot(&self) -> usize {
        self.index
    }

    /// The slot that the interface has in the list.
    pub fn get_index(&self) -> (index: usize)
        ensures
            index == self.slot(),
    {
        self.index
    }

    /// Takes the interface off the list, one step at a time: waits for its
    /// receive worker, and frees the slot once the worker has ended. While
    /// the worker runs the caller has yielded, performs the switch, and
    /// asks again when it runs again.
    ///
    /// The registration names a slot that holds a worker of this scheduler.
    pub fn unregister(&self, s: &mut Scheduler, list: &mut InterfaceList) -> (step: JoinStep)
        requires
            old(s)@.wf(),
            !old(s)@.taken,
            old(s)@.current != old(s)@.idle,
            self.slot() < old(list)@.len(),
            old(list)@[self.slot() as int] is Some,
            old(s)@.worker_found(old(list)@[self.slot() as int]->0),
        ensures
            final(s)@.wf(),
            !final(s)@.taken,
            old(s)@.precedes(final(s)@),
            old(s)@.quiet(final(s)@),
            match step {
                JoinStep::Joined => {
                    &&& old(s)@.worker_ended(old(list)@[self.slot() as int]->0)
                    &&& final(s)@ == old(s)@
                    &&& final(list)@ == old(list)@.update(self.slot() as int, None)
                },
                JoinStep::Pending(switch) => {
                    &&& !old(s)@.worker_ended(old(list)@[self.slot() as int]->0)
                    &&& final(s)@ == old(s)@.yielded()
                    &&& switch == old(s)@.yield_switch()
                    &&& final(list)@ == old(list)@
                },
            },
    {
        let waited = match &list.slots[self.index] {
            Some(worker) => worker.wait(s),
            None => unreached(),
        };
        match waited {
            Ok(JoinStep::Joined) => {
                list.slots[self.index] = None;
                assert(list@ =~= old(list)@.update(self.slot() as int, None));
                JoinStep::Joined
            },
            Ok(JoinStep::Pending(switch)) => JoinStep::Pending(switch),
            Err(_) => unreached(),
        }
    }
}

/// Registers an interface: starts its receive worker, gives it the first
/// free slot of the list, and returns the registration with the frame that
/// the caller sends through the interface to probe it.
pub fn register(s: &mut Scheduler, list: &mut InterfaceList, mac_addr: &[u8; 6]) -> (r: Result<
    (Registration, Vec<u8>),
    SpawnError,
>)
    requires
        old(s)@.wf(),
    ensures
        final(s)@.wf(),
        old(s)@.precedes(final(s)@),
        old(s)@.quiet(final(s)@),
        match r {
            Ok((registration, frame)) => {
                &&& old(s)@.threads.len() < u32::MAX
                &&& final(s)@ == old(s)@.with_worker("Network Rx"@)
                &&& is_first_free(old(list)@, registration.slot() as int)
                &&& final(list)@ == with_interface(
                    old(list)@,
                    registration.slot() as int,
                    old(s)@.threads.len() as ThreadID,
                )
                &&& frame@ == probe_frame(mac_addr@)
            },
            Err(e) => {
                &&& old(s)@.threads.len() >= u32::MAX
                &&& e == SpawnError::TooManyThreads
                &&& final(s)@ == old(s)@
                &&& final(list)@ == old(list)@
            },
        },
{
    match WorkerThread::new(s, "Network Rx") {
        Ok(worker) => {
            let index = list.insert(worker);
            Ok((Registration { index }, build_probe(mac_addr)))
        },
        Err(e) => Err(e),
    }
}

} // verus!
