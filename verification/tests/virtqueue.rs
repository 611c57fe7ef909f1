//! Descriptor rings.
use rcore_os_virtio_snd::protocol::{QUEUE_SIZE, VIRTQ_DESC_F_NEXT, VIRTQ_DESC_F_WRITE};
use rcore_os_virtio_snd::{SndError, SndQueue, VirtQueue, VirtqDesc};

#[test]
fn test_virtqueue_initial_state() {
    let q = VirtQueue::new(SndQueue::Control);
    assert_eq!(q.avail.idx, 0);
    assert_eq!(q.used.idx, 0);
    assert_eq!(q.last_used_idx, 0);
    assert_eq!(q.free_head, 0);
}

#[test]
fn test_virtqueue_add_single_chain() {
    let mut q = VirtQueue::new(SndQueue::Control);
    let buf = [0u8; 64];
    let chain = [VirtqDesc::readable(buf.as_ptr() as u64, 64)];
    let head = q.add_chain(&chain).unwrap();
    assert_eq!(head, 0);
    assert_eq!(q.avail.idx, 1);
}

#[test]
fn test_virtqueue_add_multi_desc_chain() {
    let mut q = VirtQueue::new(SndQueue::Control);
    let req_buf = [1u8; 8];
    let resp_buf = [0u8; 4];
    let chain = [
        VirtqDesc::readable(req_buf.as_ptr() as u64, 8),
        VirtqDesc::writable(resp_buf.as_ptr() as u64, 4),
    ];
    let head = q.add_chain(&chain).unwrap();

    assert_eq!(
        q.desc[head as usize].flags & VIRTQ_DESC_F_NEXT,
        VIRTQ_DESC_F_NEXT
    );

    let next_idx = q.desc[head as usize].next;
    assert_eq!(
        q.desc[next_idx as usize].flags & VIRTQ_DESC_F_WRITE,
        VIRTQ_DESC_F_WRITE
    );
    assert_eq!(
        q.desc[next_idx as usize].flags & VIRTQ_DESC_F_NEXT,
        0
    );
}

#[test]
fn test_virtqueue_process_used_reclaims_descs() {
    let mut q = VirtQueue::new(SndQueue::Control);
    let buf = [0u8; 16];
    let chain = [VirtqDesc::readable(buf.as_ptr() as u64, 16)];
    let head = q.add_chain(&chain).unwrap();

    q.simulate_device_complete(head, 16);

    let completed = q.process_used();
    assert_eq!(completed.len(), 1);
    assert_eq!(completed[0].0, head);
    assert_eq!(completed[0].1, 16);
    assert_eq!(q.last_used_idx, 1);
}

#[test]
fn test_virtqueue_free_desc_chain_returns_to_pool() {
    let mut q = VirtQueue::new(SndQueue::Control);
    let buf = [0u8; 8];
    let chain = [VirtqDesc::readable(buf.as_ptr() as u64, 8)];
    let head = q.add_chain(&chain).unwrap();
    q.simulate_device_complete(head, 8);
    q.process_used();

    let chain2 = [VirtqDesc::readable(buf.as_ptr() as u64, 8)];
    assert!(q.add_chain(&chain2).is_ok());
}

#[test]
fn test_virtqueue_empty_chain_returns_error() {
    let mut q = VirtQueue::new(SndQueue::Control);
    let result = q.add_chain(&[]);
    assert_eq!(result, Err(SndError::InvalidParameter));
}

#[test]
fn test_virtqueue_notify_device_resets_num_added() {
    let mut q = VirtQueue::new(SndQueue::Control);
    let buf = [0u8; 8];
    let chain = [VirtqDesc::readable(buf.as_ptr() as u64, 8)];
    q.add_chain(&chain).unwrap();
    assert_eq!(q.num_added, 0);
}

#[test]
fn test_virtqueue_irq_flags() {
    let mut q = VirtQueue::new(SndQueue::Control);
    assert!(q.irq_enabled);
    q.disable_irq();
    assert!(!q.irq_enabled);
    assert_eq!(q.avail.flags & 1, 1);
    q.enable_irq();
    assert!(q.irq_enabled);
    assert_eq!(q.avail.flags & 1, 0);
}

#[test]
fn test_virtqueue_multiple_chains_sequential() {
    let mut q = VirtQueue::new(SndQueue::Control);
    let buf = [0u8; 4];
    for i in 1..=3u16 {
        let chain = [VirtqDesc::readable(buf.as_ptr() as u64, 4)];
        q.add_chain(&chain).unwrap();
        assert_eq!(q.avail.idx, i);
    }
}

#[test]
fn test_virtqueue_desc_addr_and_len_written_correctly() {
    let mut q = VirtQueue::new(SndQueue::Control);
    let buf = [0u8; 32];
    let addr = buf.as_ptr() as u64;
    let chain = [VirtqDesc::readable(addr, 32)];
    let head = q.add_chain(&chain).unwrap();
    assert_eq!(q.desc[head as usize].addr, addr);
    assert_eq!(q.desc[head as usize].len, 32);
}

#[test]
fn test_virtq_desc_readable_has_no_write_flag() {
    let d = VirtqDesc::readable(0x1000, 64);
    assert_eq!(d.flags & VIRTQ_DESC_F_WRITE, 0);
}

#[test]
fn test_virtq_desc_writable_has_write_flag() {
    let d = VirtqDesc::writable(0x2000, 32);
    assert_eq!(d.flags & VIRTQ_DESC_F_WRITE, VIRTQ_DESC_F_WRITE);
}

#[test]
fn test_virtq_desc_with_next() {
    let d = VirtqDesc::readable(0x3000, 16).with_next(5);
    assert_eq!(d.flags & VIRTQ_DESC_F_NEXT, VIRTQ_DESC_F_NEXT);
    assert_eq!(d.next, 5);
}

/// A chain of `n` buffers that the device reads, at made-up addresses.
fn chain_of(n: usize) -> Vec<VirtqDesc> {
    (0..n).map(|i| VirtqDesc::readable(0x1000 * (i as u64 + 1), 16 + i as u32)).collect()
}

/// The descriptors of a chain, found the way a device finds them.
fn walk(q: &VirtQueue, head: u16) -> Vec<u16> {
    let mut found = vec![head];
    let mut cur = head;
    while q.desc[cur as usize].flags & VIRTQ_DESC_F_NEXT != 0 {
        cur = q.desc[cur as usize].next;
        found.push(cur);
    }
    found
}

#[test]
fn new_queue_links_every_descriptor() {
    let q = VirtQueue::new(SndQueue::Tx);
    assert_eq!(q.queue_id, SndQueue::Tx);
    assert_eq!(q.desc.len(), QUEUE_SIZE);
    for i in 0..QUEUE_SIZE {
        let next = if i + 1 < QUEUE_SIZE { i as u16 + 1 } else { 0 };
        assert_eq!(q.desc[i].next, next);
        assert_eq!((q.desc[i].addr, q.desc[i].len, q.desc[i].flags), (0, 0, 0));
    }
    assert_eq!(q.free_desc_count(), 256);
    assert_eq!(q.free_count, 256);
}

#[test]
fn default_parts_are_zero() {
    let d = VirtqDesc::default();
    assert_eq!((d.addr, d.len, d.flags, d.next), (0, 0, 0, 0));
    let avail = rcore_os_virtio_snd::VirtqAvail::default();
    assert_eq!((avail.flags, avail.idx, avail.used_event), (0, 0, 0));
    assert!(avail.ring.iter().all(|&entry| entry == 0));
    let used = rcore_os_virtio_snd::VirtqUsed::default();
    assert_eq!((used.flags, used.idx, used.avail_event), (0, 0, 0));
    assert!(used.ring.iter().all(|entry| entry.id == 0 && entry.len == 0));
}

#[test]
fn parts_have_the_size_that_the_device_expects() {
    assert_eq!(core::mem::size_of::<VirtqDesc>(), 16);
    assert_eq!(core::mem::size_of::<rcore_os_virtio_snd::VirtqUsedElem>(), 8);
}

#[test]
fn added_chain_reads_back() {
    let mut q = VirtQueue::new(SndQueue::Tx);
    q.add_chain(&chain_of(2)).unwrap();
    let chain = [
        VirtqDesc::readable(0xa000, 8),
        VirtqDesc::readable(0xb000, 256),
        VirtqDesc::writable(0xc000, 4),
    ];
    let head = q.add_chain(&chain).unwrap();
    assert_eq!(head, 2);
    assert_eq!(q.avail.ring[1], head);
    assert_eq!(walk(&q, head), vec![2, 3, 4]);
    for (k, &at) in walk(&q, head).iter().enumerate() {
        let found = q.desc[at as usize];
        assert_eq!((found.addr, found.len), (chain[k].addr, chain[k].len));
        assert_eq!(found.flags & VIRTQ_DESC_F_WRITE, chain[k].flags & VIRTQ_DESC_F_WRITE);
    }
    assert_eq!(q.free_head, 5);
    assert_eq!(q.free_count, 251);
}

#[test]
fn a_next_flag_in_the_input_does_not_leak() {
    let mut q = VirtQueue::new(SndQueue::Tx);
    let head = q.add_chain(&[VirtqDesc::readable(0x10, 1).with_next(9)]).unwrap();
    assert_eq!(walk(&q, head), vec![0]);
}

#[test]
fn adding_leaves_other_chains() {
    let mut q = VirtQueue::new(SndQueue::Tx);
    let first = q.add_chain(&chain_of(3)).unwrap();
    let before: Vec<(u64, u32, u16, u16)> = walk(&q, first)
        .iter()
        .map(|&i| q.desc[i as usize])
        .map(|d| (d.addr, d.len, d.flags, d.next))
        .collect();
    q.add_chain(&chain_of(5)).unwrap();
    let after: Vec<(u64, u32, u16, u16)> = walk(&q, first)
        .iter()
        .map(|&i| q.desc[i as usize])
        .map(|d| (d.addr, d.len, d.flags, d.next))
        .collect();
    assert_eq!(before, after);
}

#[test]
fn a_full_queue_refuses_and_keeps_what_it_holds() {
    let mut q = VirtQueue::new(SndQueue::Control);
    for i in 0..128u16 {
        assert_eq!(q.add_chain(&chain_of(2)), Ok(2 * i));
    }
    assert_eq!(q.free_count, 0);
    assert_eq!(q.add_chain(&chain_of(2)), Err(SndError::QueueFull));
    assert_eq!(q.add_chain(&chain_of(1)), Err(SndError::QueueFull));
    assert_eq!(q.avail.idx, 128);
    for i in 0..128u16 {
        assert_eq!(walk(&q, 2 * i), vec![2 * i, 2 * i + 1]);
    }
    assert_eq!(q.free_desc_count(), 0);
    assert!(q.has_free_descs(0));
    assert!(!q.has_free_descs(1));
}

#[test]
fn free_descriptors_are_counted_one_by_one() {
    let mut q = VirtQueue::new(SndQueue::Control);
    assert!(q.has_free_descs(256));
    assert!(!q.has_free_descs(257));
    let chain = [VirtqDesc::readable(0x1000, 8), VirtqDesc::writable(0x2000, 4)];
    assert_eq!(q.add_chain(&chain), Ok(0));
    assert_eq!(q.free_desc_count(), 254);
    assert!(q.has_free_descs(254));
    assert!(!q.has_free_descs(255));
    assert!(!q.has_free_descs(257));
    assert!(!q.has_free_descs(usize::MAX));
    q.simulate_device_complete(0, 4);
    q.process_used();
    assert_eq!(q.free_desc_count(), 256);
    assert!(q.has_free_descs(256));
}

#[test]
fn a_chain_may_take_the_whole_queue_but_no_more() {
    let mut q = VirtQueue::new(SndQueue::Rx);
    assert_eq!(q.add_chain(&chain_of(257)), Err(SndError::QueueFull));
    assert_eq!(q.add_chain(&chain_of(256)), Ok(0));
    assert_eq!(walk(&q, 0).len(), 256);
    assert_eq!(q.add_chain(&chain_of(1)), Err(SndError::QueueFull));
    q.simulate_device_complete(0, 0);
    q.process_used();
    assert_eq!(q.free_count, 256);
    assert_eq!(q.free_head, 255);
}

#[test]
fn a_chain_of_one_comes_back_in_place() {
    let mut q = VirtQueue::new(SndQueue::Control);
    let head = q.add_chain(&chain_of(1)).unwrap();
    assert_eq!(q.free_head, 1);
    q.simulate_device_complete(head, 7);
    assert_eq!(q.process_used(), vec![(0, 7)]);
    assert_eq!(q.free_head, 0);
    assert_eq!(q.desc[0].next, 1);
    assert_eq!(q.free_count, 256);
    assert_eq!(q.free_desc_count(), 256);
}

#[test]
fn a_longer_chain_comes_back_tail_first() {
    let mut q = VirtQueue::new(SndQueue::Control);
    let head = q.add_chain(&chain_of(3)).unwrap();
    q.simulate_device_complete(head, 0);
    q.process_used();
    assert_eq!(q.free_head, 2);
    assert_eq!(q.desc[2].next, 1);
    assert_eq!(q.desc[1].next, 0);
    assert_eq!(q.desc[0].next, 3);
    assert_eq!(q.add_chain(&chain_of(2)), Ok(2));
    assert_eq!(walk(&q, 2), vec![2, 1]);
}

#[test]
fn completions_come_in_the_order_of_the_device() {
    let mut q = VirtQueue::new(SndQueue::Tx);
    let a = q.add_chain(&chain_of(2)).unwrap();
    let b = q.add_chain(&chain_of(3)).unwrap();
    let c = q.add_chain(&chain_of(1)).unwrap();
    q.simulate_device_complete(c, 1);
    q.simulate_device_complete(a, 2);
    assert_eq!(q.process_used(), vec![(c, 1), (a, 2)]);
    assert_eq!(walk(&q, b), vec![2, 3, 4]);
    assert_eq!(q.free_count, 253);
    assert_eq!(q.free_desc_count(), 253);
    assert_eq!(q.process_used(), vec![]);
    assert_eq!(q.last_used_idx, 2);
}

#[test]
fn indices_wrap_around() {
    let mut q = VirtQueue::new(SndQueue::Tx);
    for round in 0..70_000u32 {
        let head = q.add_chain(&chain_of(2)).unwrap();
        q.simulate_device_complete(head, round);
        assert_eq!(q.process_used(), vec![(head, round)]);
    }
    assert_eq!(q.avail.idx, (70_000 % 65_536) as u16);
    assert_eq!(q.last_used_idx, q.used.idx);
    assert_eq!(q.free_count, 256);
    assert_eq!(q.free_desc_count(), 256);
}

#[test]
fn notifying_clears_the_count() {
    let mut q = VirtQueue::new(SndQueue::Event);
    q.num_added = 5;
    q.notify_device();
    assert_eq!(q.num_added, 0);
}

#[test]
fn interrupt_flag_leaves_the_other_flags() {
    let mut q = VirtQueue::new(SndQueue::Event);
    q.avail.flags = 0x80;
    q.disable_irq();
    assert_eq!(q.avail.flags, 0x81);
    q.disable_irq();
    assert_eq!(q.avail.flags, 0x81);
    q.enable_irq();
    assert_eq!(q.avail.flags, 0x80);
}

#[test]
fn every_descriptor_has_one_holder() {
    let mut q = VirtQueue::new(SndQueue::Tx);
    let heads: Vec<u16> = (1..=20).map(|n| q.add_chain(&chain_of(n)).unwrap()).collect();
    for &head in heads.iter().step_by(3) {
        q.simulate_device_complete(head, 0);
    }
    q.process_used();
    let mut holders = vec![0; QUEUE_SIZE];
    for (i, &head) in heads.iter().enumerate() {
        if i % 3 != 0 {
            assert_eq!(walk(&q, head).len(), i + 1);
            for at in walk(&q, head) {
                holders[at as usize] += 1;
            }
        }
    }
    let mut cur = q.free_head;
    for _ in 0..q.free_count {
        holders[cur as usize] += 1;
        cur = q.desc[cur as usize].next;
    }
    assert_eq!(holders, vec![1; QUEUE_SIZE]);
}

#[test]
fn returned_descriptors_are_cleared_and_others_kept() {
    let mut q = VirtQueue::new(SndQueue::Tx);
    let first = q.add_chain(&chain_of(3)).unwrap();
    let second = q.add_chain(&chain_of(2)).unwrap();
    let kept: Vec<(u64, u32, u16, u16)> =
        q.desc.iter().map(|d| (d.addr, d.len, d.flags, d.next)).collect();
    q.simulate_device_complete(first, 0);
    q.process_used();
    for i in 0..QUEUE_SIZE {
        let d = q.desc[i];
        if i < 3 {
            assert_eq!((d.addr, d.len, d.flags), (0, 0, 0));
        } else {
            assert_eq!((d.addr, d.len, d.flags, d.next), kept[i]);
        }
    }
    assert_eq!(walk(&q, second), vec![3, 4]);
    assert_eq!(q.free_desc_count(), 254);
}

#[test]
fn requests_are_posted_at_their_addresses() {
    let mut q = VirtQueue::new(SndQueue::Control);
    assert_eq!(q.post_request_at(&[1, 2, 3], 0xaa00, 0xbb00, 9), Ok(0));
    let found: Vec<(u64, u32, u16)> =
        walk(&q, 0).iter().map(|&i| q.desc[i as usize]).map(|d| (d.addr, d.len, d.flags)).collect();
    assert_eq!(found, vec![(0xaa00, 3, 1), (0xbb00, 9, 2)]);
    q.add_chain(&chain_of(253)).unwrap();
    assert_eq!(q.post_request_at(&[1], 1, 2, 3), Err(SndError::QueueFull));
}

#[test]
fn frames_are_posted_at_their_addresses() {
    let mut q = VirtQueue::new(SndQueue::Tx);
    assert_eq!(q.post_frames_at(&[0; 8], &[7; 100], 0xa0, 0xb0, 0xc0, 4), Ok(0));
    let found: Vec<(u64, u32, u16)> =
        walk(&q, 0).iter().map(|&i| q.desc[i as usize]).map(|d| (d.addr, d.len, d.flags)).collect();
    assert_eq!(found, vec![(0xa0, 8, 1), (0xb0, 100, 1), (0xc0, 4, 2)]);
    q.add_chain(&chain_of(251)).unwrap();
    assert_eq!(q.post_frames_at(&[0], &[0], 1, 2, 3, 4), Err(SndError::QueueFull));
}
