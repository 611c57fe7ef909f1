//! Split virtqueues: descriptor table, available ring and used ring.
use crate::chains;
use crate::chains::{QueueModel, Table};
use crate::memory::{read_barrier, write_barrier, Placed};
use crate::protocol::{SndError, SndQueue, QUEUE_SIZE, VIRTQ_DESC_F_NEXT, VIRTQ_DESC_F_WRITE};
use vstd::prelude::*;

verus! {

/// A descriptor: one buffer of a chain.
#[derive(Debug, Clone, Copy)]
pub struct VirtqDesc {
    /// Physical address of the buffer.
    pub addr: u64,
    /// Length of the buffer in bytes.
    pub len: u32,
    /// Flags (`VIRTQ_DESC_F_*`).
    pub flags: u16,
    /// Index of the next descriptor, valid where `VIRTQ_DESC_F_NEXT` is set.
    pub next: u16,
}

impl VirtqDesc {
    /// A descriptor that the device reads.
    pub open spec fn spec_readable(addr: u64, len: u32) -> VirtqDesc {
        VirtqDesc { addr, len, flags: 0, next: 0 }
    }

    /// A descriptor that the device writes.
    pub open spec fn spec_writable(addr: u64, len: u32) -> VirtqDesc {
        VirtqDesc { addr, len, flags: VIRTQ_DESC_F_WRITE, next: 0 }
    }

    /// A descriptor that the device reads.
    pub fn readable(addr: u64, len: u32) -> (desc: Self)
        ensures
            desc == Self::spec_readable(addr, len),
    {
        Self { addr, len, flags: 0, next: 0 }
    }

    /// A descriptor that the device writes.
    pub fn writable(addr: u64, len: u32) -> (desc: Self)
        ensures
            desc == Self::spec_writable(addr, len),
    {
        Self { addr, len, flags: VIRTQ_DESC_F_WRITE, next: 0 }
    }

    /// The descriptor with a successor.
    pub fn with_next(self, next_idx: u16) -> (desc: Self)
        ensures
            desc == (VirtqDesc { flags: self.flags | VIRTQ_DESC_F_NEXT, next: next_idx, ..self }),
            chains::has_next(desc),
    {
        let flags: u16 = self.flags;
        assert(((flags | 1u16) & 1u16) != 0) by (bit_vector);
        Self { flags: flags | VIRTQ_DESC_F_NEXT, next: next_idx, ..self }
    }

    /// The descriptor as it stands in the table: followed by `next`, or last of its chain.
    pub open spec fn placed(self, next: Option<u16>) -> VirtqDesc {
        match next {
            Some(index) => VirtqDesc {
                flags: (self.flags & !VIRTQ_DESC_F_NEXT) | VIRTQ_DESC_F_NEXT,
                next: index,
                ..self
            },
            None => VirtqDesc { flags: self.flags & !VIRTQ_DESC_F_NEXT, ..self },
        }
    }
}

impl Default for VirtqDesc {
    fn default() -> (desc: Self)
        ensures
            desc == chains::blank(0),
    {
        Self { addr: 0, len: 0, flags: 0, next: 0 }
    }
}

/// A placed descriptor has a successor exactly where one was named.
pub proof fn lemma_placed_has_next(desc: VirtqDesc, next: Option<u16>)
    ensures
        chains::has_next(desc.placed(next)) <==> next is Some,
{
    let flags = desc.flags;
    assert((((flags & !1u16) | 1u16) & 1u16) != 0) by (bit_vector);
    assert(((flags & !1u16) & 1u16) == 0) by (bit_vector);
}

/// Available ring: chains that the driver hands to the device.
#[derive(Debug, Clone, Copy)]
pub struct VirtqAvail {
    /// Bit 0: no interrupt wanted.
    pub flags: u16,
    /// Where the driver writes next, modulo 2^16.
    pub idx: u16,
    /// Heads of the chains.
    pub ring: [u16; QUEUE_SIZE],
    /// Event suppression.
    pub used_event: u16,
}

impl Default for VirtqAvail {
    fn default() -> (avail: Self)
        ensures
            avail.flags == 0,
            avail.idx == 0,
            avail.used_event == 0,
            avail.ring@ == Seq::new(QUEUE_SIZE as nat, |i: int| 0u16),
    {
        Self { flags: 0, idx: 0, ring: [0u16;QUEUE_SIZE], used_event: 0 }
    }
}

/// Entry of the used ring.
#[derive(Debug, Clone, Copy)]
pub struct VirtqUsedElem {
    /// Head of the chain that the device is done with.
    pub id: u32,
    /// Number of bytes that the device wrote.
    pub len: u32,
}

impl Default for VirtqUsedElem {
    fn default() -> (elem: Self)
        ensures
            elem.id == 0,
            elem.len == 0,
    {
        Self { id: 0, len: 0 }
    }
}

/// Used ring: chains that the device hands back to the driver.
#[derive(Debug)]
pub struct VirtqUsed {
    /// Bit 0: no notification wanted.
    pub flags: u16,
    /// Where the device writes next, modulo 2^16.
    pub idx: u16,
    /// The entries.
    pub ring: [VirtqUsedElem; QUEUE_SIZE],
    /// Event suppression.
    pub avail_event: u16,
}

impl Default for VirtqUsed {
    fn default() -> (used: Self)
        ensures
            used.flags == 0,
            used.idx == 0,
            used.avail_event == 0,
            used.ring@ == Seq::new(QUEUE_SIZE as nat, |i: int| VirtqUsedElem { id: 0, len: 0 }),
    {
        Self {
            flags: 0,
            idx: 0,
            ring: [VirtqUsedElem { id: 0, len: 0 };QUEUE_SIZE],
            avail_event: 0,
        }
    }
}

/// The driver's side of a virtqueue.
///
/// The three rings stand in ordinary memory; on hardware they would be DMA memory whose
/// addresses the device knows.
pub struct VirtQueue {
    /// Which queue of the device this is.
    pub queue_id: SndQueue,
    /// Descriptor table.
    pub desc: Vec<VirtqDesc>,
    /// Available ring, written by the driver.
    pub avail: VirtqAvail,
    /// Used ring, written by the device.
    pub used: VirtqUsed,
    /// First free descriptor.
    pub free_head: u16,
    /// Number of free descriptors.
    pub free_count: u16,
    /// Chains added since the device was last notified.
    pub num_added: u16,
    /// How far the driver has read the used ring.
    pub last_used_idx: u16,
    /// Whether interrupts are wanted.
    pub irq_enabled: bool,
    /// Who holds the descriptors.
    pub model: Ghost<QueueModel>,
    /// For each request posted on this queue, the contents of its device-readable buffers.
    pub posted: Ghost<Seq<Seq<Seq<u8>>>>,
}

impl VirtQueue {
    /// The descriptor table and its free list.
    pub open spec fn table(self) -> Table {
        Table { desc: self.desc@, head: self.free_head, count: self.free_count }
    }

    /// Number of chains that were made available and not yet taken back.
    pub open spec fn outstanding(self) -> u16 {
        self.avail.idx.wrapping_sub(self.last_used_idx)
    }

    /// Every index that the table names lies in it.
    pub open spec fn in_range(self) -> bool {
        &&& self.desc@.len() == QUEUE_SIZE
        &&& self.table().links_in_range()
    }

    /// Every descriptor is free or belongs to one chain in flight, and the table says which.
    pub open spec fn wf(self) -> bool {
        &&& self.in_range()
        &&& self.model@.describes(self.table())
        &&& self.model@.in_flight.len() == self.outstanding()
        &&& self.num_added == 0
    }

    /// Nothing has happened on the queue yet: every descriptor is free, in ascending order.
    pub open spec fn fresh(self, queue_id: SndQueue) -> bool {
        &&& self.queue_id == queue_id
        &&& self.desc@ == Seq::new(
            QUEUE_SIZE as nat,
            |i: int|
                chains::blank(
                    (if i + 1 < QUEUE_SIZE {
                        i + 1
                    } else {
                        0
                    }) as u16,
                ),
        )
        &&& self.avail.flags == 0
        &&& self.avail.idx == 0
        &&& self.avail.used_event == 0
        &&& self.avail.ring@ == Seq::new(QUEUE_SIZE as nat, |i: int| 0u16)
        &&& self.used.flags == 0
        &&& self.used.idx == 0
        &&& self.used.avail_event == 0
        &&& self.used.ring@ == Seq::new(
            QUEUE_SIZE as nat,
            |i: int| VirtqUsedElem { id: 0, len: 0 },
        )
        &&& self.free_head == 0
        &&& self.free_count == QUEUE_SIZE
        &&& self.num_added == 0
        &&& self.last_used_idx == 0
        &&& self.irq_enabled
        &&& self.model@.free == Seq::new(QUEUE_SIZE as nat, |i: int| i as u16)
        &&& self.model@.in_flight == Seq::<Seq<u16>>::empty()
        &&& self.posted@ == Seq::<Seq<Seq<u8>>>::empty()
    }

    /// Creates a queue whose descriptors are all free.
    pub fn new(queue_id: SndQueue) -> (queue: Self)
        ensures
            queue.wf(),
            queue.fresh(queue_id),
    {
        let mut desc: Vec<VirtqDesc> = Vec::with_capacity(QUEUE_SIZE);
        for i in 0..QUEUE_SIZE
            invariant
                desc@.len() == i,
                forall|k: int|
                    0 <= k < i ==> #[trigger] desc@[k] == chains::blank(
                        (if k + 1 < QUEUE_SIZE {
                            k + 1
                        } else {
                            0
                        }) as u16,
                    ),
        {
            let next: u16 = if i + 1 < QUEUE_SIZE {
                (i + 1) as u16
            } else {
                0
            };
            desc.push(VirtqDesc { addr: 0, len: 0, flags: 0, next });
        }
        let queue = Self {
            queue_id,
            desc,
            avail: VirtqAvail::default(),
            used: VirtqUsed::default(),
            free_head: 0,
            free_count: QUEUE_SIZE as u16,
            num_added: 0,
            last_used_idx: 0,
            irq_enabled: true,
            model: Ghost(
                QueueModel {
                    free: Seq::new(QUEUE_SIZE as nat, |i: int| i as u16),
                    in_flight: Seq::empty(),
                },
            ),
            posted: Ghost(Seq::empty()),
        };
        proof {
            assert forall|i: int| 0 <= i < QUEUE_SIZE implies !chains::has_next(
                #[trigger] queue.desc@[i],
            ) by {
                chains::lemma_blank_has_no_next(queue.desc@[i].next);
            }
        }
        assert(queue.desc@ =~= Seq::new(
            QUEUE_SIZE as nat,
            |i: int|
                chains::blank(
                    (if i + 1 < QUEUE_SIZE {
                        i + 1
                    } else {
                        0
                    }) as u16,
                ),
        ));
        queue
    }

    /// Whether `count` descriptors are free.
    pub fn has_free_descs(&self, count: usize) -> (enough: bool)
        ensures
            enough == (count <= self.free_count),
            self.wf() ==> enough == (count <= self.model@.free.len()),
    {
        count <= self.free_count as usize
    }

    /// Number of free descriptors.
    pub fn free_desc_count(&self) -> (count: usize)
        ensures
            count == self.free_count,
            self.wf() ==> count == self.model@.free.len(),
    {
        self.free_count as usize
    }

    /// Takes the first descriptor off the free list.
    fn alloc_desc(&mut self) -> (index: Result<u16, SndError>)
        requires
            old(self).desc@.len() == QUEUE_SIZE,
        ensures
            old(self).free_count == 0 || old(self).free_head >= QUEUE_SIZE ==> index == Err::<
                u16,
                SndError,
            >(SndError::QueueFull) && *final(self) == *old(self),
            old(self).free_count > 0 && old(self).free_head < QUEUE_SIZE ==> {
                &&& index == Ok::<u16, SndError>(old(self).free_head)
                &&& *final(self) == (VirtQueue {
                    free_head: old(self).desc@[old(self).free_head as int].next,
                    free_count: (old(self).free_count - 1) as u16,
                    ..*old(self)
                })
            },
    {
        if self.free_count == 0 || self.free_head as usize >= QUEUE_SIZE {
            return Err(SndError::QueueFull);
        }
        let idx: u16 = self.free_head;
        self.free_head = self.desc[idx as usize].next;
        self.free_count = self.free_count - 1;
        Ok(idx)
    }

    /// Puts a descriptor at the front of the free list.
    fn free_desc(&mut self, idx: u16)
        requires
            idx < old(self).desc@.len(),
        ensures
            final(self).table() == old(self).table().freed(idx),
            *final(self) == (VirtQueue {
                desc: final(self).desc,
                free_head: final(self).free_head,
                free_count: final(self).free_count,
                ..*old(self)
            }),
    {
        self.desc[idx as usize] = VirtqDesc { addr: 0, len: 0, flags: 0, next: self.free_head };
        self.free_head = idx;
        self.free_count = self.free_count.saturating_add(1);
        assert(final(self).table() == old(self).table().freed(idx));
    }

    /// The queue after `chain` was written to the first free descriptors, linked, and made
    /// available to the device.
    pub open spec fn chain_added(pre: VirtQueue, post: VirtQueue, chain: Seq<VirtqDesc>) -> bool {
        let picked = pre.model@.free.take(chain.len() as int);
        &&& post.model@ == pre.model@.submit(chain.len() as int)
        &&& post.desc@.len() == pre.desc@.len()
        &&& forall|k: int|
            0 <= k < chain.len() ==> #[trigger] post.desc@[picked[k] as int] == chain[k].placed(
                if k + 1 < chain.len() {
                    Some(picked[k + 1])
                } else {
                    None
                },
            )
        &&& forall|i: int|
            0 <= i < pre.desc@.len() && !picked.contains(i as u16) ==> #[trigger] post.desc@[i]
                == pre.desc@[i]
        &&& post.free_head == (if chain.len() < pre.model@.free.len() {
            pre.model@.free[chain.len() as int]
        } else {
            pre.desc@[picked.last() as int].next
        })
        &&& post.free_count == pre.free_count - chain.len()
        &&& post.avail.ring@ == pre.avail.ring@.update(
            pre.avail.idx as int % QUEUE_SIZE as int,
            pre.model@.free[0],
        )
        &&& post.avail.idx == pre.avail.idx.wrapping_add(1)
        &&& post.avail.flags == pre.avail.flags
        &&& post.avail.used_event == pre.avail.used_event
        &&& post.queue_id == pre.queue_id
        &&& post.used == pre.used
        &&& post.num_added == 0
        &&& post.last_used_idx == pre.last_used_idx
        &&& post.irq_enabled == pre.irq_enabled
    }

    /// The model still describes the table once a chain was added.
    pub(crate) proof fn lemma_chain_added(pre: VirtQueue, post: VirtQueue, chain: Seq<VirtqDesc>)
        requires
            pre.wf(),
            0 < chain.len() <= pre.model@.free.len(),
            Self::chain_added(pre, post, chain),
        ensures
            post.wf(),
    {
        let n = chain.len() as int;
        let picked = pre.model@.free.take(n);
        let model = pre.model@;
        let next = post.model@;
        chains::lemma_submit(model, n);
        assert forall|k: int| 0 <= k < n implies #[trigger] picked[k] == model.free[k] by {}
        assert forall|k: int| 0 <= k < n implies (chains::has_next(
            #[trigger] post.desc@[picked[k] as int],
        ) <==> k + 1 < n) by {
            lemma_placed_has_next(
                chain[k],
                if k + 1 < n {
                    Some(picked[k + 1])
                } else {
                    None
                },
            );
        }
        assert(chains::chain_at(post.desc@, picked));
        assert forall|i: int| 0 <= i < next.free.len() implies #[trigger] next.free[i]
            == model.free[i + n] && post.desc@[next.free[i] as int] == pre.desc@[model.free[i
            + n] as int] by {
            if picked.contains(next.free[i]) {
                let k = choose|k: int| 0 <= k < n && picked[k] == next.free[i];
                assert(model.free[k] == model.free[i + n]);
            }
        }
        assert(chains::free_list_at(post.desc@, post.free_head, next.free)) by {
            assert forall|i: int, j: int|
                #![trigger post.desc@[next.free[i] as int], next.free[j]]
                0 <= i && j == i + 1 && j < next.free.len() implies post.desc@[next.free[i] as
                int].next == next.free[j] by {
                assert(next.free[j] == model.free[j + n]);
            }
        }
        assert forall|a: int| 0 <= a < next.in_flight.len() implies chains::chain_at(
            post.desc@,
            #[trigger] next.in_flight[a],
        ) by {
            if a < model.in_flight.len() {
                let other = model.in_flight[a];
                assert(next.in_flight[a] == other);
                assert(chains::chain_at(pre.desc@, other));
                assert forall|i: int| 0 <= i < other.len() implies #[trigger] post.desc@[other[i] as
                int] == pre.desc@[other[i] as int] by {
                    if picked.contains(other[i]) {
                        let k = choose|k: int| 0 <= k < n && picked[k] == other[i];
                        assert(model.in_flight[a][i] != model.free[k]);
                    }
                }
            }
        }
        assert forall|i: int|
            0 <= i < post.desc@.len() && chains::has_next(
                #[trigger] post.desc@[i],
            ) implies post.desc@[i].next < post.desc@.len() by {
            if picked.contains(i as u16) {
                let k = choose|k: int| 0 <= k < n && picked[k] == i as u16;
                assert(post.desc@[picked[k] as int] == post.desc@[i]);
                assert(picked[k + 1] == model.free[k + 1]);
            }
        }
        chains::lemma_total_bound(model.in_flight);
    }

    /// Writes a chain to the descriptor table and makes it available to the device.
    ///
    /// Returns the index of the first descriptor of the chain. The descriptors are visible
    /// before the ring entry is, and the ring entry before the index; the device is notified.
    pub fn add_chain(&mut self, chain: &[VirtqDesc]) -> (head: Result<u16, SndError>)
        requires
            old(self).wf(),
        ensures
            final(self).wf(),
            chain@.len() == 0 ==> head == Err::<u16, SndError>(SndError::InvalidParameter),
            chain@.len() > old(self).model@.free.len() ==> head == Err::<u16, SndError>(
                SndError::QueueFull,
            ),
            0 < chain@.len() <= old(self).model@.free.len() ==> {
                &&& head == Ok::<u16, SndError>(old(self).model@.free[0])
                &&& Self::chain_added(*old(self), *final(self), chain@)
            },
            head is Err ==> *final(self) == *old(self),
            final(self).posted == old(self).posted,
    {
        if chain.len() == 0 {
            return Err(SndError::InvalidParameter);
        }
        if !self.has_free_descs(chain.len()) {
            return Err(SndError::QueueFull);
        }
        let ghost pre = *self;
        let ghost free = self.model@.free;
        let n: usize = chain.len();
        let ghost picked = free.take(n as int);

        let head_idx: u16 = self.alloc_desc()?;
        let mut prev_idx: u16 = head_idx;
        self.desc[head_idx as usize] = VirtqDesc {
            flags: chain[0].flags & !VIRTQ_DESC_F_NEXT,
            ..chain[0]
        };
        assert(picked.take(1)[0] == head_idx);
        let mut i: usize = 1;
        while i < n
            invariant
                pre.wf(),
                free == pre.model@.free,
                picked == free.take(n as int),
                n == chain@.len(),
                1 <= i <= n <= free.len(),
                self.desc@.len() == QUEUE_SIZE,
                *self == (VirtQueue {
                    desc: self.desc,
                    free_head: self.free_head,
                    free_count: self.free_count,
                    ..pre
                }),
                self.free_count == pre.free_count - i,
                self.free_head == pre.desc@[free[i - 1] as int].next,
                prev_idx == free[i - 1],
                forall|k: int|
                    0 <= k < i ==> #[trigger] self.desc@[picked[k] as int] == chain@[k].placed(
                        if k + 1 < i {
                            Some(picked[k + 1])
                        } else {
                            None
                        },
                    ),
                forall|j: int|
                    0 <= j < self.desc@.len() && !picked.take(i as int).contains(j as u16)
                        ==> #[trigger] self.desc@[j] == pre.desc@[j],
            decreases n - i,
        {
            let ghost before = *self;
            assert(free[i as int] == pre.desc@[free[i - 1] as int].next);
            assert(free[i as int] < QUEUE_SIZE);
            assert(!picked.take(i as int).contains(free[i as int]));
            assert(self.desc@[free[i as int] as int] == pre.desc@[free[i as int] as int]);
            let idx: u16 = self.alloc_desc()?;
            assert(picked[i - 1] == free[i - 1]);
            assert(free[i - 1] < QUEUE_SIZE);
            let tail: VirtqDesc = self.desc[prev_idx as usize];
            self.desc[prev_idx as usize] = VirtqDesc {
                flags: tail.flags | VIRTQ_DESC_F_NEXT,
                next: idx,
                ..tail
            };
            self.desc[idx as usize] = VirtqDesc {
                flags: chain[i].flags & !VIRTQ_DESC_F_NEXT,
                ..chain[i]
            };
            prev_idx = idx;
            proof {
                assert forall|k: int| 0 <= k < i + 1 implies #[trigger] self.desc@[picked[k] as int]
                    == chain@[k].placed(
                    if k + 1 < i + 1 {
                        Some(picked[k + 1])
                    } else {
                        None
                    },
                ) by {
                    assert(picked[k] == free[k]);
                    if k < i - 1 {
                        assert(free[k] != free[i as int] && free[k] != free[i - 1]);
                        assert(before.desc@[picked[k] as int] == chain@[k].placed(
                            Some(picked[k + 1]),
                        ));
                    } else if k == i - 1 {
                        assert(free[k] != free[i as int]);
                        assert(before.desc@[picked[k] as int] == chain@[k].placed(None));
                    }
                }
                assert forall|j: int|
                    0 <= j < self.desc@.len() && !picked.take(i + 1).contains(
                        j as u16,
                    ) implies #[trigger] self.desc@[j] == pre.desc@[j] by {
                    assert(picked.take(i + 1)[i as int] == free[i as int]);
                    assert(picked.take(i + 1)[i - 1] == free[i - 1]);
                    if picked.take(i as int).contains(j as u16) {
                        let k = choose|k: int|
                            0 <= k < i && picked.take(i as int)[k] == j as u16;
                        assert(picked.take(i + 1)[k] == j as u16);
                    }
                }
            }
            i = i + 1;
        }
        assert(picked.take(n as int) =~= picked);

        write_barrier();

        let avail_idx: usize = (self.avail.idx as usize) % QUEUE_SIZE;
        self.avail.ring[avail_idx] = head_idx;
        self.num_added = self.num_added + 1;

        write_barrier();
        self.avail.idx = self.avail.idx.wrapping_add(1);
        self.model = Ghost(self.model@.submit(n as int));
        self.notify_device();
        proof {
            Self::lemma_chain_added(pre, *self, chain@);
        }
        Ok(head_idx)
    }

    /// The queue after a request was posted: a chain of the request, which the device reads, and
    /// of a reply buffer of `reply_bytes` bytes, which it writes. Each descriptor holds the address
    /// of the buffer that it stands for.
    pub open spec fn request_posted(
        pre: VirtQueue,
        post: VirtQueue,
        request: Seq<u8>,
        reply_bytes: u32,
    ) -> bool {
        &&& post.posted@ == pre.posted@.push(seq![request])
        &&& exists|asked: Placed, reply: Placed|
            {
                &&& asked.bytes() == request
                &&& reply.bytes().len() == reply_bytes
                &&& Self::chain_added(
                    pre,
                    post,
                    seq![
                        #[trigger] VirtqDesc::spec_readable(asked.addr(), request.len() as u32),
                        #[trigger] VirtqDesc::spec_writable(reply.addr(), reply_bytes),
                    ],
                )
            }
    }

    /// The queue after `requests` were posted in turn, each with room for a reply of
    /// `reply_bytes` bytes.
    pub open spec fn requests_posted(
        pre: VirtQueue,
        post: VirtQueue,
        requests: Seq<Seq<u8>>,
        reply_bytes: u32,
    ) -> bool
        decreases requests.len(),
    {
        if requests.len() == 0 {
            post == pre
        } else {
            exists|mid: VirtQueue|
                #![trigger Self::request_posted(mid, post, requests.last(), reply_bytes)]
                Self::requests_posted(pre, mid, requests.drop_last(), reply_bytes)
                    && Self::request_posted(mid, post, requests.last(), reply_bytes)
        }
    }

    /// The record of requests posted in turn.
    pub open spec fn recorded(requests: Seq<Seq<u8>>) -> Seq<Seq<Seq<u8>>> {
        Seq::new(requests.len(), |i: int| seq![requests[i]])
    }

    /// Requests posted in turn are recorded in turn.
    pub(crate) proof fn lemma_recorded(
        pre: VirtQueue,
        post: VirtQueue,
        requests: Seq<Seq<u8>>,
        reply_bytes: u32,
    )
        requires
            Self::requests_posted(pre, post, requests, reply_bytes),
        ensures
            post.posted@ == pre.posted@ + Self::recorded(requests),
        decreases requests.len(),
    {
        if requests.len() == 0 {
            assert(post.posted@ =~= pre.posted@ + Self::recorded(requests));
        } else {
            let shorter = requests.drop_last();
            let mid = choose|mid: VirtQueue|
                #![trigger Self::request_posted(mid, post, requests.last(), reply_bytes)]
                Self::requests_posted(pre, mid, shorter, reply_bytes) && Self::request_posted(
                    mid,
                    post,
                    requests.last(),
                    reply_bytes,
                );
            Self::lemma_recorded(pre, mid, shorter, reply_bytes);
            assert(Self::recorded(requests) =~= Self::recorded(shorter).push(
                seq![requests.last()],
            ));
            assert(post.posted@ =~= pre.posted@ + Self::recorded(requests));
        }
    }

    /// One more request posted.
    pub(crate) proof fn lemma_request_posted(
        pre: VirtQueue,
        mid: VirtQueue,
        post: VirtQueue,
        requests: Seq<Seq<u8>>,
        request: Seq<u8>,
        reply_bytes: u32,
    )
        requires
            Self::requests_posted(pre, mid, requests, reply_bytes),
            Self::request_posted(mid, post, request, reply_bytes),
        ensures
            Self::requests_posted(pre, post, requests.push(request), reply_bytes),
            mid.model@.free.len() >= 2 ==> post.model@.free.len() == mid.model@.free.len() - 2,
    {
        let longer = requests.push(request);
        assert(longer.drop_last() =~= requests);
        assert(Self::request_posted(mid, post, longer.last(), reply_bytes));
    }

    /// Posts a request that stands at `request_addr`, and room for a reply of `reply_bytes` bytes
    /// at `reply_addr`.
    pub fn post_request_at(
        &mut self,
        request: &[u8],
        request_addr: u64,
        reply_addr: u64,
        reply_bytes: u32,
    ) -> (head: Result<u16, SndError>)
        requires
            old(self).wf(),
            request@.len() <= u32::MAX,
        ensures
            final(self).wf(),
            old(self).model@.free.len() < 2 ==> head == Err::<u16, SndError>(SndError::QueueFull)
                && *final(self) == *old(self),
            old(self).model@.free.len() >= 2 ==> {
                &&& head == Ok::<u16, SndError>(old(self).model@.free[0])
                &&& final(self).posted@ == old(self).posted@.push(seq![request@])
                &&& Self::chain_added(
                    *old(self),
                    *final(self),
                    seq![
                        VirtqDesc::spec_readable(request_addr, request@.len() as u32),
                        VirtqDesc::spec_writable(reply_addr, reply_bytes),
                    ],
                )
            },
    {
        let chain: [VirtqDesc; 2] = [
            VirtqDesc::readable(request_addr, request.len() as u32),
            VirtqDesc::writable(reply_addr, reply_bytes),
        ];
        let head: u16 = self.add_chain(&chain)?;
        self.posted = Ghost(self.posted@.push(seq![request@]));
        assert(chain@ =~= seq![
            VirtqDesc::spec_readable(request_addr, request@.len() as u32),
            VirtqDesc::spec_writable(reply_addr, reply_bytes),
        ]);
        Ok(head)
    }

    /// Posts a request and room for its reply.
    pub(crate) fn post_request(
        &mut self,
        request: &[u8],
        reply: &[u8],
    ) -> (head: Result<u16, SndError>)
        requires
            old(self).wf(),
            0 < request@.len() <= u32::MAX,
            0 < reply@.len() <= u32::MAX,
        ensures
            final(self).wf(),
            old(self).model@.free.len() < 2 ==> head == Err::<u16, SndError>(SndError::QueueFull)
                && *final(self) == *old(self),
            old(self).model@.free.len() >= 2 ==> {
                &&& head == Ok::<u16, SndError>(old(self).model@.free[0])
                &&& Self::request_posted(
                    *old(self),
                    *final(self),
                    request@,
                    reply@.len() as u32,
                )
            },
    {
        let request_at = Placed::of(request);
        let reply_at = Placed::of(reply);
        let request_addr: u64 = request_at.address();
        let reply_addr: u64 = reply_at.address();
        self.post_request_at(request, request_addr, reply_addr, reply.len() as u32)
    }

    /// The queue after PCM data was posted: a chain of the header and the data, which the device
    /// reads, and of a status buffer of `status_bytes` bytes, which it writes. Each descriptor
    /// holds the address of the buffer that it stands for, and the length of the data is kept
    /// modulo 2^32.
    pub open spec fn frames_posted(
        pre: VirtQueue,
        post: VirtQueue,
        header: Seq<u8>,
        data: Seq<u8>,
        status_bytes: u32,
    ) -> bool {
        &&& post.posted@ == pre.posted@.push(seq![header, data])
        &&& exists|head: Placed, body: Placed, status: Placed|
            {
                &&& head.bytes() == header
                &&& body.bytes() == data
                &&& status.bytes().len() == status_bytes
                &&& Self::chain_added(
                    pre,
                    post,
                    seq![
                        #[trigger] VirtqDesc::spec_readable(head.addr(), header.len() as u32),
                        #[trigger] VirtqDesc::spec_readable(
                            body.addr(),
                            (data.len() % 0x1_0000_0000) as u32,
                        ),
                        #[trigger] VirtqDesc::spec_writable(status.addr(), status_bytes),
                    ],
                )
            }
    }

    /// Posts PCM data that stands at `data_addr`, its header at `header_addr`, and room for a
    /// status of `status_bytes` bytes at `status_addr`.
    pub fn post_frames_at(
        &mut self,
        header: &[u8],
        data: &[u8],
        header_addr: u64,
        data_addr: u64,
        status_addr: u64,
        status_bytes: u32,
    ) -> (head: Result<u16, SndError>)
        requires
            old(self).wf(),
            header@.len() <= u32::MAX,
        ensures
            final(self).wf(),
            old(self).model@.free.len() < 3 ==> head == Err::<u16, SndError>(SndError::QueueFull)
                && *final(self) == *old(self),
            old(self).model@.free.len() >= 3 ==> {
                &&& head == Ok::<u16, SndError>(old(self).model@.free[0])
                &&& final(self).posted@ == old(self).posted@.push(seq![header@, data@])
                &&& Self::chain_added(
                    *old(self),
                    *final(self),
                    seq![
                        VirtqDesc::spec_readable(header_addr, header@.len() as u32),
                        VirtqDesc::spec_readable(
                            data_addr,
                            (data@.len() % 0x1_0000_0000) as u32,
                        ),
                        VirtqDesc::spec_writable(status_addr, status_bytes),
                    ],
                )
            },
    {
        let data_len: u32 = (data.len() as u64 % 0x1_0000_0000) as u32;
        let chain: [VirtqDesc; 3] = [
            VirtqDesc::readable(header_addr, header.len() as u32),
            VirtqDesc::readable(data_addr, data_len),
            VirtqDesc::writable(status_addr, status_bytes),
        ];
        let head: u16 = self.add_chain(&chain)?;
        self.posted = Ghost(self.posted@.push(seq![header@, data@]));
        assert(chain@ =~= seq![
            VirtqDesc::spec_readable(header_addr, header@.len() as u32),
            VirtqDesc::spec_readable(data_addr, (data@.len() % 0x1_0000_0000) as u32),
            VirtqDesc::spec_writable(status_addr, status_bytes),
        ]);
        Ok(head)
    }

    /// Posts PCM data with its header and room for the status of the transfer.
    pub(crate) fn post_frames(
        &mut self,
        header: &[u8],
        data: &[u8],
        status: &[u8],
    ) -> (head: Result<u16, SndError>)
        requires
            old(self).wf(),
            0 < header@.len() <= u32::MAX,
            0 < data@.len(),
            0 < status@.len() <= u32::MAX,
        ensures
            final(self).wf(),
            old(self).model@.free.len() < 3 ==> head == Err::<u16, SndError>(SndError::QueueFull)
                && *final(self) == *old(self),
            old(self).model@.free.len() >= 3 ==> {
                &&& head == Ok::<u16, SndError>(old(self).model@.free[0])
                &&& Self::frames_posted(
                    *old(self),
                    *final(self),
                    header@,
                    data@,
                    status@.len() as u32,
                )
            },
    {
        let header_at = Placed::of(header);
        let data_at = Placed::of(data);
        let status_at = Placed::of(status);
        let header_addr: u64 = header_at.address();
        let data_addr: u64 = data_at.address();
        let status_addr: u64 = status_at.address();
        let status_bytes: u32 = status.len() as u32;
        self.post_frames_at(header, data, header_addr, data_addr, status_addr, status_bytes)
    }

    /// Frees the chain that starts with `head`.
    fn reclaim_chain(&mut self, head: u16)
        requires
            old(self).in_range(),
            head < QUEUE_SIZE,
        ensures
            final(self).in_range(),
            final(self).table() == old(self).table().reclaimed(head),
            *final(self) == (VirtQueue {
                desc: final(self).desc,
                free_head: final(self).free_head,
                free_count: final(self).free_count,
                ..*old(self)
            }),
    {
        let mut cur: u16 = head;
        loop
            invariant_except_break
                self.in_range(),
                cur < QUEUE_SIZE,
                self.table().reclaimed(cur) == old(self).table().reclaimed(head),
            invariant
                *self == (VirtQueue {
                    desc: self.desc,
                    free_head: self.free_head,
                    free_count: self.free_count,
                    ..*old(self)
                }),
            ensures
                self.in_range(),
                self.table() == old(self).table().reclaimed(head),
            decreases chains::links(self.desc@),
        {
            proof {
                chains::lemma_blank_has_no_next(self.free_head);
                chains::lemma_links_update(
                    self.desc@,
                    cur as int,
                    chains::blank(self.free_head),
                );
            }
            let next: u16 = self.desc[cur as usize].next;
            let has_next: bool = (self.desc[cur as usize].flags & VIRTQ_DESC_F_NEXT) != 0;
            self.free_desc(cur);
            if !has_next {
                break;
            }
            cur = next;
        }
    }

    /// The entries of the used ring that the driver has not read yet: heads, modulo 2^16, and
    /// written lengths.
    pub open spec fn pending(self) -> Seq<(u16, u32)> {
        Seq::new(
            self.used.idx.wrapping_sub(self.last_used_idx) as nat,
            |k: int|
                {
                    let elem = self.used.ring@[(self.last_used_idx + k) % QUEUE_SIZE as int];
                    ((elem.id % 0x1_0000) as u16, elem.len)
                },
        )
    }

    /// The heads of the unread entries of the used ring.
    pub open spec fn pending_heads(self) -> Seq<u16> {
        self.pending().map_values(|entry: (u16, u32)| entry.0)
    }

    /// The unread entries name descriptors of the table.
    pub open spec fn pending_in_range(self) -> bool {
        forall|k: int|
            0 <= k < self.pending_heads().len() ==> #[trigger] self.pending_heads()[k] < QUEUE_SIZE
    }

    /// The device hands back chains that it holds, each once.
    pub open spec fn pending_valid(self) -> bool {
        &&& self.pending_heads().no_duplicates()
        &&& forall|k: int|
            0 <= k < self.pending_heads().len() ==> self.model@.holds(
                #[trigger] self.pending_heads()[k],
            )
    }

    /// The queue after the unread entries of the used ring were read and their chains freed.
    pub open spec fn used_processed(pre: VirtQueue, post: VirtQueue) -> bool {
        &&& post.last_used_idx == pre.used.idx
        &&& post.table() == pre.table().reclaimed_all(pre.pending_heads())
        &&& post.model@ == pre.model@.complete_all(pre.pending_heads())
        &&& post == (VirtQueue {
            desc: post.desc,
            free_head: post.free_head,
            free_count: post.free_count,
            last_used_idx: post.last_used_idx,
            model: post.model,
            ..pre
        })
        &&& post.in_range()
        &&& pre.wf() && pre.pending_valid() ==> post.wf()
    }

    /// Takes back every chain that the device has handed back since the last call.
    ///
    /// Frees the descriptors of each chain and returns the heads with the number of bytes that
    /// the device wrote, in the order of the used ring. To be called from the interrupt handler
    /// or from a polling loop.
    pub fn process_used(&mut self) -> (completed: Vec<(u16, u32)>)
        requires
            old(self).in_range(),
            old(self).pending_in_range(),
        ensures
            completed@ == old(self).pending(),
            Self::used_processed(*old(self), *final(self)),
    {
        read_barrier();
        let ghost pre = *self;
        let ghost heads = pre.pending_heads();
        let ghost mut k: int = 0;
        let mut completed: Vec<(u16, u32)> = Vec::new();
        assert(heads.take(0) =~= Seq::empty());
        while self.last_used_idx != self.used.idx
            invariant
                heads == pre.pending_heads(),
                pre.pending_in_range(),
                0 <= k <= heads.len(),
                heads.len() - k == self.used.idx.wrapping_sub(self.last_used_idx),
                self.last_used_idx == pre.last_used_idx.wrapping_add(k as u16),
                completed@ == pre.pending().take(k),
                self.in_range(),
                self.table() == pre.table().reclaimed_all(heads.take(k)),
                self.model@ == pre.model@.complete_all(heads.take(k)),
                *self == (VirtQueue {
                    desc: self.desc,
                    free_head: self.free_head,
                    free_count: self.free_count,
                    last_used_idx: self.last_used_idx,
                    model: self.model,
                    ..pre
                }),
                pre.wf() && pre.pending_valid() ==> {
                    &&& self.wf()
                    &&& forall|j: int|
                        k <= j < heads.len() ==> self.model@.holds(#[trigger] heads[j])
                },
            decreases heads.len() - k,
        {
            let ghost before = *self;
            let slot: usize = (self.last_used_idx as usize) % QUEUE_SIZE;
            assert(slot == (pre.last_used_idx + k) % QUEUE_SIZE as int);
            let elem: VirtqUsedElem = self.used.ring[slot];
            self.last_used_idx = self.last_used_idx.wrapping_add(1);
            let head: u16 = (elem.id % 0x1_0000) as u16;
            assert(pre.pending()[k] == (head, elem.len));
            assert(heads[k] == head);
            self.reclaim_chain(head);
            self.model = Ghost(self.model@.complete(head));
            completed.push((head, elem.len));
            proof {
                assert(heads.take(k + 1).drop_last() =~= heads.take(k));
                assert(heads.take(k + 1).last() == head);
                if pre.wf() && pre.pending_valid() {
                    assert(before.model@.holds(heads[k]));
                    chains::lemma_complete_describes(before.model@, before.table(), head);
                    assert forall|j: int| k + 1 <= j < heads.len() implies self.model@.holds(
                        #[trigger] heads[j],
                    ) by {
                        chains::lemma_complete_holds(before.model@, head, heads[j]);
                    }
                    chains::lemma_chain_index(before.model@.in_flight, head);
                }
                k = k + 1;
            }
        }
        assert(heads.take(k) =~= heads);
        assert(pre.pending().take(k) =~= pre.pending());
        completed
    }

    /// The queue after the device handed back the chain that starts with `head`, in which it
    /// wrote `len` bytes.
    pub open spec fn chain_used(pre: VirtQueue, post: VirtQueue, head: u16, len: u32) -> bool {
        &&& post.used.ring@ == pre.used.ring@.update(
            pre.used.idx as int % QUEUE_SIZE as int,
            VirtqUsedElem { id: head as u32, len },
        )
        &&& post.used.idx == pre.used.idx.wrapping_add(1)
        &&& post.used.flags == pre.used.flags
        &&& post.used.avail_event == pre.used.avail_event
        &&& post == (VirtQueue { used: post.used, ..pre })
    }

    /// Acts as the device: hands a chain back through the used ring.
    pub fn simulate_device_complete(&mut self, head_idx: u16, written_len: u32)
        ensures
            Self::chain_used(*old(self), *final(self), head_idx, written_len),
    {
        let slot: usize = (self.used.idx as usize) % QUEUE_SIZE;
        self.used.ring[slot] = VirtqUsedElem { id: head_idx as u32, len: written_len };
        self.used.idx = self.used.idx.wrapping_add(1);
    }

    /// Tells the device about the chains added since the last call.
    ///
    /// On hardware this writes the number of the queue to the notification register.
    pub fn notify_device(&mut self)
        ensures
            *final(self) == (VirtQueue { num_added: 0, ..*old(self) }),
    {
        if self.num_added > 0 {
            self.num_added = 0;
        }
    }

    /// Asks the device not to interrupt.
    pub fn disable_irq(&mut self)
        ensures
            *final(self) == (VirtQueue {
                avail: VirtqAvail { flags: old(self).avail.flags | 1, ..old(self).avail },
                irq_enabled: false,
                ..*old(self)
            }),
    {
        self.avail.flags = self.avail.flags | 1;
        self.irq_enabled = false;
    }

    /// Asks the device to interrupt.
    pub fn enable_irq(&mut self)
        ensures
            *final(self) == (VirtQueue {
                avail: VirtqAvail { flags: old(self).avail.flags & !1, ..old(self).avail },
                irq_enabled: true,
                ..*old(self)
            }),
    {
        self.avail.flags = self.avail.flags & !1;
        self.irq_enabled = true;
    }
}

} // verus!
