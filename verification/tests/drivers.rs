use kthreads::block::{
    BlockDevice, IoError, VirtioBlockReq, VIRTIO_BLK_F_RO, VIRTIO_BLK_T_IN, VIRTIO_BLK_T_OUT,
};
use kthreads::nic::{build_probe, register, Error, InterfaceList, SparsePacket};
use kthreads::scheduler::{reap_threads, runnable_count, thread_state};
use kthreads::worker_thread::JoinStep;
use kthreads::{get_thread_id, init, terminate_thread, RunState, Switch};

#[test]
fn sparse_packet_walks_its_regions_in_order() {
    let tail = SparsePacket::new(&[7, 8, 9], None);
    let middle = SparsePacket::new(&[], Some(&tail));
    let head = SparsePacket::new(&[1, 2], Some(&middle));
    let mut iter = head.into_iter();
    assert_eq!(iter.next(), Some(&[1u8, 2][..]));
    assert_eq!(iter.next(), Some(&[][..]));
    assert_eq!(iter.next(), Some(&[7u8, 8, 9][..]));
    assert_eq!(iter.next(), None);
    assert_eq!(iter.next(), None);
}

#[test]
fn sparse_packet_of_one_region() {
    let pkt = SparsePacket::new(&[5], None);
    let mut iter = pkt.into_iter();
    assert_eq!(iter.next(), Some(&[5u8][..]));
    assert_eq!(iter.next(), None);
}

#[test]
fn nic_errors_are_distinct() {
    assert_ne!(Error::NoPacket, Error::MtuExceeded);
    assert_ne!(Error::MtuExceeded, Error::BufferUnderrun);
}

#[test]
fn probe_frame_carries_the_senders_address() {
    let frame = build_probe(&[0x52, 0x54, 0x00, 0xAB, 0xCD, 0xEF]);
    let expected: Vec<u8> = vec![
        0xFF, 0xFF, 0xFF, 0xFF, 0xFF, 0xFF, 0x52, 0x54, 0x00, 0xAB, 0xCD, 0xEF, 0x08, 0x06, 0x00,
        0x01, 0x08, 0x00, 0x06, 0x04, 0x00, 0x01, 0x52, 0x54, 0x00, 0x12, 0x34, 0x56, 0x0a, 0x00,
        0x02, 0x0F, 0xFF, 0xFF, 0xFF, 0xFF, 0xFF, 0xFF, 0x0A, 0x00, 0x02, 0x02,
    ];
    assert_eq!(frame, expected);
    assert_eq!(frame.len(), 42);
}

#[test]
fn register_starts_a_worker_and_takes_the_first_free_slot() {
    let mut s = init();
    let mut list = InterfaceList::new();
    let mac = [2, 0, 0, 0, 0, 1];
    let (first, frame) = register(&mut s, &mut list, &mac).unwrap();
    assert_eq!(first.get_index(), 0);
    assert_eq!(frame, build_probe(&mac));
    assert_eq!(thread_state(&s, 2), Some(RunState::Runnable));
    assert_eq!(runnable_count(&s), 1);
    let (second, _) = register(&mut s, &mut list, &mac).unwrap();
    assert_eq!(second.get_index(), 1);
    assert_eq!(list.len(), 2);
    assert!(list.is_registered(0));
    assert!(list.is_registered(1));
    assert!(!list.is_registered(2));
}

#[test]
fn unregister_waits_for_the_worker_and_frees_the_slot() {
    let mut s = init();
    let mut list = InterfaceList::new();
    let mac = [2, 0, 0, 0, 0, 1];
    let (first, _) = register(&mut s, &mut list, &mac).unwrap();
    let (second, _) = register(&mut s, &mut list, &mac).unwrap();
    // The worker of the first interface runs still: the caller yields.
    assert_eq!(first.unregister(&mut s, &mut list), JoinStep::Pending(Switch::To(2)));
    assert!(list.is_registered(0));
    assert_eq!(get_thread_id(&s), 2);
    // The worker ends; the second worker gives way to thread 0.
    assert_eq!(terminate_thread(&mut s), Switch::To(3));
    assert_eq!(kthreads::yield_time(&mut s), Switch::To(0));
    assert_eq!(first.unregister(&mut s, &mut list), JoinStep::Joined);
    assert!(!list.is_registered(0));
    assert!(list.is_registered(1));
    assert_eq!(list.len(), 2);
    // The free slot is used again.
    let (third, _) = register(&mut s, &mut list, &mac).unwrap();
    assert_eq!(third.get_index(), 0);
    assert_eq!(list.len(), 2);
    assert_eq!(second.get_index(), 1);
    let _ = reap_threads(&mut s);
}

#[test]
fn block_device_capacity_joins_both_halves() {
    let dev = BlockDevice::new(0x0000_1000, 0, 0);
    assert_eq!(dev.capacity(), Some(0x1000));
    let big = BlockDevice::new(0x8000_0001, 0x0000_0002, 0);
    assert_eq!(big.capacity(), Some(0x0000_0002_8000_0001));
    let full = BlockDevice::new(0xFFFF_FFFF, 0xFFFF_FFFF, 0);
    assert_eq!(full.capacity(), Some(u64::MAX));
    assert_eq!(dev.name(), "virtio0");
    assert_eq!(dev.blocksize(), 512);
}

#[test]
fn block_device_reads_the_read_only_feature() {
    assert!(BlockDevice::new(1, 0, VIRTIO_BLK_F_RO).read_only());
    assert!(BlockDevice::new(1, 0, 0xFFFF_FFFF).read_only());
    assert!(!BlockDevice::new(1, 0, 0).read_only());
    assert!(!BlockDevice::new(1, 0, !VIRTIO_BLK_F_RO).read_only());
}

#[test]
fn block_requests_turn_the_priority_round() {
    let dev = BlockDevice::new(100, 0, 0);
    assert_eq!(
        dev.read(0, 17, 2, 1024),
        VirtioBlockReq { type_: VIRTIO_BLK_T_IN, ioprio: 255, sector: 17 }
    );
    assert_eq!(
        dev.read(255, 0, 0, 0),
        VirtioBlockReq { type_: 0, ioprio: 0, sector: 0 }
    );
    assert_eq!(
        dev.write(5, 9, 1, 512),
        VirtioBlockReq { type_: VIRTIO_BLK_T_OUT, ioprio: 250, sector: 9 }
    );
}

#[test]
fn buffers_hold_whole_blocks() {
    let dev = BlockDevice::new(100, 0, 0);
    assert!(dev.holds_blocks(0, 0));
    assert!(dev.holds_blocks(3, 1536));
    assert!(!dev.holds_blocks(3, 1537));
    assert!(!dev.holds_blocks(3, 1024));
    assert!(!dev.holds_blocks(1, 511));
}

#[test]
fn completions_map_to_io_results() {
    let dev = BlockDevice::new(100, 0, 0);
    assert_eq!(dev.completion(Ok(512)), Ok(()));
    assert_eq!(dev.completion(Ok(0)), Ok(()));
    assert_eq!(dev.completion(Err(())), Err(IoError::Unknown));
    assert_eq!(dev.wipe(0, 10), Ok(()));
}
