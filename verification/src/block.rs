//! The virtio block device: its capacity, and the requests that read and
//! write its sectors.

use vstd::prelude::*;

verus! {

/// Feature bit: the device is read-only.
pub const VIRTIO_BLK_F_RO: u32 = 0x20;

/// Request type: read sectors from the device.
pub const VIRTIO_BLK_T_IN: u32 = 0;

/// Request type: write sectors to the device.
pub const VIRTIO_BLK_T_OUT: u32 = 1;

/// The size of a sector, in bytes.
pub const SECTOR_SIZE: usize = 512;

/// The header of a request to the device.
#[derive(Clone, Copy, Debug, PartialEq, Eq, Structural)]
pub struct VirtioBlockReq {
    pub type_: u32,
    pub ioprio: u32,
    pub sector: u64,
}

/// A transfer failed.
#[derive(Clone, Copy, Debug, PartialEq, Eq, Structural)]
pub enum IoError {
    /// The device reported a failure without a reason.
    Unknown,
}

/// A virtio block device.
#[derive(Debug)]
pub struct BlockDevice {
    capacity: u64,
    read_only: bool,
}

/// The request header of a transfer of the given type: the device's
/// priority runs the other way, and the first sector is `idx`.
pub open spec fn request(type_: u32, prio: u8, idx: u64) -> VirtioBlockReq {
    VirtioBlockReq { type_, ioprio: (255 - prio) as u32, sector: idx }
}

impl BlockDevice {
    /// The number of sectors that the device holds.
    pub closed spec fn sectors(&self) -> u64 {
        self.capacity
    }

    /// The device accepts no writes.
    pub closed spec fn is_read_only(&self) -> bool {
        self.read_only
    }

    /// A device as its configuration describes it: the two halves of the
    /// capacity, low half first, and the features that it offers.
    pub fn new(capacity_lo: u32, capacity_hi: u32, features: u32) -> (dev: BlockDevice)
        ensures
            dev.sectors() == capacity_lo + capacity_hi * 0x1_0000_0000,
            dev.is_read_only() == (features & VIRTIO_BLK_F_RO != 0),
    {
        let lo = capacity_lo as u64;
        let hi = capacity_hi as u64;
        let capacity = lo | (hi << 32);
        assert(capacity == lo + hi * 0x1_0000_0000) by (bit_vector)
            requires
                capacity == lo | (hi << 32),
                lo < 0x1_0000_0000,
                hi < 0x1_0000_0000,
        ;
        BlockDevice { capacity, read_only: features & VIRTIO_BLK_F_RO != 0 }
    }

    /// The name of the volume.
    pub fn name(&self) -> (name: &'static str)
        ensures
            name@ == "virtio0"@,
    {
        "virtio0"
    }

    /// The size of a block, in bytes.
    pub fn blocksize(&self) -> (size: usize)
        ensures
            size == 512,
    {
        SECTOR_SIZE
    }

    /// The number of blocks of the volume.
    pub fn capacity(&self) -> (sectors: Option<u64>)
        ensures
            sectors == Some(self.sectors()),
    {
        Some(self.capacity)
    }

    /// True when the device accepts no writes.
    pub fn read_only(&self) -> (ro: bool)
        ensures
            ro == self.is_read_only(),
    {
        self.read_only
    }

    /// True when a buffer of `len` bytes holds exactly `num` blocks.
    pub fn holds_blocks(&self, num: usize, len: usize) -> (fits: bool)
        ensures
            fits == (len == num * 512),
    {
        len % SECTOR_SIZE == 0 && len / SECTOR_SIZE == num
    }

    /// The header of the request that reads `num` blocks from block `idx`
    /// on into a buffer of `len` bytes.
    pub fn read(&self, prio: u8, idx: u64, num: usize, len: usize) -> (cmd: VirtioBlockReq)
        requires
            len == num * 512,
        ensures
            cmd == request(VIRTIO_BLK_T_IN, prio, idx),
    {
        VirtioBlockReq { type_: VIRTIO_BLK_T_IN, ioprio: (255 - prio) as u32, sector: idx }
    }

    /// The header of the request that writes `num` blocks from a buffer of
    /// `len` bytes to block `idx` on.
    pub fn write(&self, prio: u8, idx: u64, num: usize, len: usize) -> (cmd: VirtioBlockReq)
        requires
            len == num * 512,
        ensures
            cmd == request(VIRTIO_BLK_T_OUT, prio, idx),
    {
        VirtioBlockReq { type_: VIRTIO_BLK_T_OUT, ioprio: (255 - prio) as u32, sector: idx }
    }

    /// Wiping blocks does nothing and succeeds: the device has no way to
    /// discard them.
    pub fn wipe(&self, _blockidx: u64, _count: usize) -> (r: Result<(), IoError>)
        ensures
            r is Ok,
    {
        Ok(())
    }

    /// What a transfer came to, given what the request queue reported: the
    /// number of bytes moved, or a failure.
    pub fn completion(&self, reported: Result<usize, ()>) -> (r: Result<(), IoError>)
        ensures
            r is Ok <==> reported is Ok,
            r is Err ==> r == Err::<(), IoError>(IoError::Unknown),
    {
        match reported {
            Ok(_) => Ok(()),
            Err(_) => Err(IoError::Unknown),
        }
    }
}

} // verus!
