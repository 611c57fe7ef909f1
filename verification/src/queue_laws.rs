//! What holds of a virtqueue over several operations.
use crate::chains;
use crate::chains::{QueueModel, Table};
use crate::memory::Placed;
use crate::protocol::{SndQueue, QUEUE_SIZE, VIRTQ_DESC_F_WRITE};
use crate::virtqueue::{VirtQueue, VirtqDesc};
use vstd::prelude::*;

verus! {

/// The descriptors of chains, one chain after the other.
spec fn flattened(list: Seq<Seq<u16>>) -> Seq<u16>
    decreases list.len(),
{
    if list.len() == 0 {
        Seq::empty()
    } else {
        flattened(list.drop_last()) + list.last()
    }
}

/// Every descriptor of the flattened chains belongs to one of them.
proof fn lemma_flattened_member(list: Seq<Seq<u16>>, p: int) -> (at: (int, int))
    requires
        0 <= p < flattened(list).len(),
    ensures
        0 <= at.0 < list.len(),
        0 <= at.1 < list[at.0].len(),
        list[at.0][at.1] == flattened(list)[p],
    decreases list.len(),
{
    let before = flattened(list.drop_last());
    if p < before.len() {
        let at = lemma_flattened_member(list.drop_last(), p);
        assert(list.drop_last()[at.0] == list[at.0]);
        at
    } else {
        (list.len() - 1, p - before.len())
    }
}

/// Where no descriptor occurs twice, listing them all gives as many as there are.
proof fn lemma_all_apart(model: QueueModel)
    requires
        model.disjoint(),
    ensures
        (model.free + flattened(model.in_flight)).no_duplicates(),
        flattened(model.in_flight).len() == chains::total(model.in_flight),
    decreases model.in_flight.len(),
{
    if model.in_flight.len() == 0 {
        assert(model.free + flattened(model.in_flight) =~= model.free);
    } else {
        let shorter = QueueModel { free: model.free, in_flight: model.in_flight.drop_last() };
        let n = shorter.in_flight.len() as int;
        assert(forall|a: int| 0 <= a < n ==> #[trigger] shorter.in_flight[a] == model.in_flight[a]);
        assert(shorter.disjoint()) by {
            assert forall|a: int, i: int, k: int|
                #![trigger shorter.in_flight[a][i], shorter.free[k]]
                0 <= a < n && 0 <= i < shorter.in_flight[a].len() && 0 <= k
                    < shorter.free.len() implies shorter.in_flight[a][i] != shorter.free[k] by {
                assert(model.in_flight[a][i] != model.free[k]);
            }
            assert forall|a: int, b: int, i: int, k: int|
                #![trigger shorter.in_flight[a][i], shorter.in_flight[b][k]]
                0 <= a < b < n && 0 <= i < shorter.in_flight[a].len() && 0 <= k
                    < shorter.in_flight[b].len() implies shorter.in_flight[a][i]
                != shorter.in_flight[b][k] by {
                assert(model.in_flight[a][i] != model.in_flight[b][k]);
            }
        }
        lemma_all_apart(shorter);
        let before = model.free + flattened(shorter.in_flight);
        let last = model.in_flight.last();
        let all = model.free + flattened(model.in_flight);
        assert(all =~= before + last);
        assert forall|p: int, q: int| 0 <= p < before.len() && 0 <= q < last.len() implies before[p]
            != last[q] by {
            if p < model.free.len() {
                assert(model.in_flight[n][q] != model.free[p]);
            } else {
                let at = lemma_flattened_member(shorter.in_flight, p - model.free.len());
                assert(model.in_flight[at.0][at.1] != model.in_flight[n][q]);
            }
        }
        assert(last.no_duplicates());
    }
}

/// Each descriptor of a queue is either free or part of a chain in flight, and never of two.
pub proof fn law_every_descriptor_has_one_holder(queue: VirtQueue, index: u16)
    requires
        queue.wf(),
        index < QUEUE_SIZE,
    ensures
        queue.model@.free.contains(index) <==> !exists|a: int|
            0 <= a < queue.model@.in_flight.len() && (
            #[trigger] queue.model@.in_flight[a]).contains(index),
        forall|a: int, b: int|
            #![trigger queue.model@.in_flight[a], queue.model@.in_flight[b]]
            0 <= a < queue.model@.in_flight.len() && 0 <= b < queue.model@.in_flight.len()
                && queue.model@.in_flight[a].contains(index) && queue.model@.in_flight[b].contains(
                index,
            ) ==> a == b,
        queue.free_count + chains::total(queue.model@.in_flight) == QUEUE_SIZE,
{
    let model = queue.model@;
    let all = model.free + flattened(model.in_flight);
    let table = Seq::new(QUEUE_SIZE as nat, |i: int| i as u16);
    lemma_all_apart(model);
    all.unique_seq_to_set();
    table.unique_seq_to_set();
    assert(all.to_set().subset_of(table.to_set())) by {
        assert forall|d: u16| all.to_set().contains(d) implies table.to_set().contains(d) by {
            let p = choose|p: int| 0 <= p < all.len() && all[p] == d;
            if p < model.free.len() {
                assert(model.free[p] < QUEUE_SIZE);
            } else {
                let at = lemma_flattened_member(model.in_flight, p - model.free.len());
                assert(chains::chain_at(queue.desc@, model.in_flight[at.0]));
                assert(model.in_flight[at.0][at.1] < QUEUE_SIZE);
            }
            assert(table[d as int] == d);
        }
    }
    vstd::set_lib::lemma_subset_equality(all.to_set(), table.to_set());
    assert(table[index as int] == index);
    assert(all.to_set().contains(index));
    let p = choose|p: int| 0 <= p < all.len() && all[p] == index;
    if p < model.free.len() {
        assert(model.free[p] == index);
    } else {
        let at = lemma_flattened_member(model.in_flight, p - model.free.len());
        assert(model.in_flight[at.0][at.1] == index);
        assert(model.in_flight[at.0].contains(index));
    }
    assert forall|a: int|
        0 <= a < model.in_flight.len() && (#[trigger] model.in_flight[a]).contains(
            index,
        ) implies !model.free.contains(index) by {
        let i = choose|i: int| 0 <= i < model.in_flight[a].len() && model.in_flight[a][i] == index;
        if model.free.contains(index) {
            let k = choose|k: int| 0 <= k < model.free.len() && model.free[k] == index;
            assert(model.in_flight[a][i] != model.free[k]);
        }
    }
    assert forall|a: int, b: int|
        #![trigger model.in_flight[a], model.in_flight[b]]
        0 <= a < model.in_flight.len() && 0 <= b < model.in_flight.len()
            && model.in_flight[a].contains(index) && model.in_flight[b].contains(
            index,
        ) implies a == b by {
        let i = choose|i: int| 0 <= i < model.in_flight[a].len() && model.in_flight[a][i] == index;
        let k = choose|k: int| 0 <= k < model.in_flight[b].len() && model.in_flight[b][k] == index;
        if a < b {
            assert(model.in_flight[a][i] != model.in_flight[b][k]);
        } else if b < a {
            assert(model.in_flight[b][k] != model.in_flight[a][i]);
        }
    }
}

/// The device reads back the chain that was added: it starts at the ring entry in front of the
/// available index, visits the buffers in order, with the addresses, lengths and directions that
/// they were given, and ends after the last.
pub proof fn law_added_chain_reads_back(pre: VirtQueue, post: VirtQueue, chain: Seq<VirtqDesc>)
    requires
        pre.wf(),
        0 < chain.len() <= pre.model@.free.len(),
        VirtQueue::chain_added(pre, post, chain),
    ensures
        ({
            let walk = post.model@.in_flight.last();
            &&& walk.len() == chain.len()
            &&& chains::chain_at(post.desc@, walk)
            &&& post.avail.ring@[pre.avail.idx as int % QUEUE_SIZE as int] == walk[0]
            &&& forall|k: int|
                0 <= k < chain.len() ==> {
                    let desc = #[trigger] post.desc@[walk[k] as int];
                    &&& desc.addr == chain[k].addr
                    &&& desc.len == chain[k].len
                    &&& desc.flags & VIRTQ_DESC_F_WRITE == chain[k].flags & VIRTQ_DESC_F_WRITE
                    &&& desc.flags & !1 == chain[k].flags & !1
                    &&& desc.flags & 1 == 1 <==> k + 1 < chain.len()
                    &&& k + 1 < chain.len() ==> desc.next == walk[k + 1]
                    &&& k + 1 == chain.len() ==> desc.next == chain[k].next
                }
        }),
{
    let walk = post.model@.in_flight.last();
    VirtQueue::lemma_chain_added(pre, post, chain);
    assert(walk =~= pre.model@.free.take(chain.len() as int));
    assert(post.model@.in_flight[post.model@.in_flight.len() - 1] == walk);
    assert forall|k: int| 0 <= k < chain.len() implies {
        let desc = #[trigger] post.desc@[walk[k] as int];
        &&& desc.addr == chain[k].addr
        &&& desc.len == chain[k].len
        &&& desc.flags & VIRTQ_DESC_F_WRITE == chain[k].flags & VIRTQ_DESC_F_WRITE
        &&& desc.flags & !1 == chain[k].flags & !1
        &&& desc.flags & 1 == 1 <==> k + 1 < chain.len()
        &&& k + 1 < chain.len() ==> desc.next == walk[k + 1]
        &&& k + 1 == chain.len() ==> desc.next == chain[k].next
    } by {
        let flags = chain[k].flags;
        assert(((flags & !1u16) | 1u16) & !1u16 == flags & !1u16) by (bit_vector);
        assert((flags & !1u16) & !1u16 == flags & !1u16) by (bit_vector);
        assert(((flags & !1u16) | 1u16) & 1u16 == 1) by (bit_vector);
        assert((flags & !1u16) & 1u16 == 0) by (bit_vector);
        assert(((flags & !1u16) | 1u16) & 2u16 == flags & 2u16) by (bit_vector);
        assert((flags & !1u16) & 2u16 == flags & 2u16) by (bit_vector);
    }
}

/// Adding a chain leaves the chains in flight as they are, on the list and in the table.
pub proof fn law_adding_leaves_other_chains(
    pre: VirtQueue,
    post: VirtQueue,
    chain: Seq<VirtqDesc>,
    a: int,
    i: int,
)
    requires
        pre.wf(),
        0 < chain.len() <= pre.model@.free.len(),
        VirtQueue::chain_added(pre, post, chain),
        0 <= a < pre.model@.in_flight.len(),
        0 <= i < pre.model@.in_flight[a].len(),
    ensures
        post.model@.in_flight[a] == pre.model@.in_flight[a],
        post.desc@[pre.model@.in_flight[a][i] as int]
            == pre.desc@[pre.model@.in_flight[a][i] as int],
{
    let index = pre.model@.in_flight[a][i];
    let picked = pre.model@.free.take(chain.len() as int);
    assert(chains::chain_at(pre.desc@, pre.model@.in_flight[a]));
    if picked.contains(index) {
        let k = choose|k: int| 0 <= k < picked.len() && picked[k] == index;
        assert(pre.model@.in_flight[a][i] != pre.model@.free[k]);
    }
}

/// What completing chains one after the other does to a model.
proof fn lemma_complete_all(model: QueueModel, heads: Seq<u16>, k: int)
    requires
        heads.no_duplicates(),
        forall|j: int| 0 <= j < heads.len() ==> model.holds(#[trigger] heads[j]),
        forall|a: int|
            0 <= a < model.in_flight.len() ==> (#[trigger] model.in_flight[a]).len() > 0,
        0 <= k <= heads.len(),
    ensures
        ({
            let after = model.complete_all(heads.take(k));
            &&& after.in_flight.len() == model.in_flight.len() - k
            &&& forall|j: int| k <= j < heads.len() ==> after.holds(#[trigger] heads[j])
            &&& forall|a: int|
                0 <= a < after.in_flight.len() ==> (#[trigger] after.in_flight[a]).len() > 0
            &&& forall|a: int|
                #![trigger model.in_flight[a]]
                0 <= a < model.in_flight.len() && !heads.take(k).contains(model.in_flight[a][0])
                    ==> after.in_flight.contains(model.in_flight[a])
        }),
    decreases k,
{
    if k == 0 {
        assert(heads.take(0) =~= Seq::empty());
    } else {
        lemma_complete_all(model, heads, k - 1);
        let shorter = heads.take(k - 1);
        let longer = heads.take(k);
        assert(longer.drop_last() =~= shorter);
        assert(longer.last() == heads[k - 1]);
        let before = model.complete_all(shorter);
        let head = heads[k - 1];
        let after = before.complete(head);
        assert(model.complete_all(longer) == after);
        chains::lemma_chain_index(before.in_flight, head);
        let at = chains::chain_index(before.in_flight, head);
        assert forall|j: int| k <= j < heads.len() implies after.holds(#[trigger] heads[j]) by {
            chains::lemma_complete_holds(before, head, heads[j]);
        }
        assert forall|a: int| 0 <= a < after.in_flight.len() implies (
        #[trigger] after.in_flight[a]).len() > 0 by {
            assert(after.in_flight[a] == before.in_flight[if a < at {
                a
            } else {
                a + 1
            }]);
        }
        assert forall|a: int|
            #![trigger model.in_flight[a]]
            0 <= a < model.in_flight.len() && !longer.contains(
                model.in_flight[a][0],
            ) implies after.in_flight.contains(model.in_flight[a]) by {
            let other = model.in_flight[a];
            if shorter.contains(other[0]) {
                let p = choose|p: int| 0 <= p < shorter.len() && shorter[p] == other[0];
                assert(longer[p] == other[0]);
            }
            assert(longer[k - 1] == head);
            let b = choose|b: int| 0 <= b < before.in_flight.len() && before.in_flight[b] == other;
            if b < at {
                assert(after.in_flight[b] == other);
            } else {
                assert(after.in_flight[b - 1] == other);
            }
        }
    }
}

/// Chains that the device holds start in the table.
proof fn lemma_held_in_range(queue: VirtQueue, head: u16)
    requires
        queue.wf(),
        queue.model@.holds(head),
    ensures
        head < QUEUE_SIZE,
{
    chains::lemma_chain_index(queue.model@.in_flight, head);
    let at = chains::chain_index(queue.model@.in_flight, head);
    assert(chains::chain_at(queue.desc@, queue.model@.in_flight[at]));
    assert(queue.model@.in_flight[at][0] < QUEUE_SIZE);
}

/// The used ring of a device that hands back what it holds can be processed.
pub proof fn law_valid_completions_can_be_processed(queue: VirtQueue)
    requires
        queue.wf(),
        queue.pending_valid(),
    ensures
        queue.in_range(),
        queue.pending_in_range(),
{
    assert forall|k: int|
        0 <= k < queue.pending_heads().len() implies #[trigger] queue.pending_heads()[k]
        < QUEUE_SIZE by {
        lemma_held_in_range(queue, queue.pending_heads()[k]);
    }
}

/// A chain that the device hands back, holding it and not having handed it back before, stands
/// behind the entries that wait in the used ring and overwrites none of them.
pub proof fn law_used_chain_waits(pre: VirtQueue, post: VirtQueue, head: u16, len: u32)
    requires
        pre.wf(),
        pre.pending_valid(),
        pre.model@.holds(head),
        !pre.pending_heads().contains(head),
        VirtQueue::chain_used(pre, post, head, len),
    ensures
        post.wf(),
        post.pending() == pre.pending().push((head, len)),
        post.pending_valid(),
{
    let heads = pre.pending_heads();
    let more = heads.push(head);
    let n = heads.len() as int;
    assert forall|j: int| 0 <= j < more.len() implies pre.model@.holds(#[trigger] more[j]) by {
        if j < n {
            assert(more[j] == heads[j]);
        }
    }
    assert(more.no_duplicates()) by {
        assert forall|i: int, j: int| 0 <= i < j < more.len() implies more[i] != more[j] by {
            assert(heads.contains(heads[i]));
        }
    }
    lemma_complete_all(pre.model@, more, more.len() as int);
    chains::lemma_total_bound(pre.model@.in_flight);
    assert(n < QUEUE_SIZE);
    assert forall|k: int| 0 <= k <= n implies #[trigger] post.pending()[k] == (if k < n {
        pre.pending()[k]
    } else {
        (head, len)
    }) by {
        let slot = (pre.last_used_idx + k) % QUEUE_SIZE as int;
        assert(pre.used.idx as int % QUEUE_SIZE as int == (pre.last_used_idx + n)
            % QUEUE_SIZE as int);
    }
    assert(post.pending() =~= pre.pending().push((head, len)));
    assert(post.pending_heads() =~= more);
    assert forall|k: int| 0 <= k < post.pending_heads().len() implies post.model@.holds(
        #[trigger] post.pending_heads()[k],
    ) by {
        assert(post.pending_heads()[k] == more[k]);
    }
}

/// Whether a descriptor belongs to a chain in flight that starts with one of `heads`.
pub open spec fn belongs_to(model: QueueModel, heads: Seq<u16>, index: u16) -> bool {
    exists|a: int|
        0 <= a < model.in_flight.len() && heads.contains((#[trigger] model.in_flight[a])[0])
            && model.in_flight[a].contains(index)
}

/// What freeing chains one after the other does to a table.
proof fn lemma_reclaim_all(model: QueueModel, table: Table, heads: Seq<u16>, k: int)
    requires
        model.describes(table),
        table.desc.len() <= u16::MAX,
        heads.no_duplicates(),
        forall|j: int| 0 <= j < heads.len() ==> model.holds(#[trigger] heads[j]),
        0 <= k <= heads.len(),
    ensures
        ({
            let after = model.complete_all(heads.take(k));
            let freed = table.reclaimed_all(heads.take(k));
            &&& after.describes(freed)
            &&& freed.desc.len() == table.desc.len()
            &&& forall|b: int|
                #![trigger after.in_flight[b]]
                0 <= b < after.in_flight.len() ==> model.in_flight.contains(after.in_flight[b])
                    && !heads.take(k).contains(after.in_flight[b][0])
            &&& forall|index: u16|
                #[trigger] belongs_to(model, heads.take(k), index) ==> after.free.contains(index)
            &&& forall|i: int|
                0 <= i < table.desc.len() && !belongs_to(model, heads.take(k), i as u16)
                    ==> #[trigger] freed.desc[i] == table.desc[i]
        }),
    decreases k,
{
    if k == 0 {
        assert(heads.take(0) =~= Seq::empty());
        assert(forall|b: int|
            0 <= b < model.in_flight.len() ==> model.in_flight.contains(
                #[trigger] model.in_flight[b],
            ));
    } else {
        lemma_reclaim_all(model, table, heads, k - 1);
        lemma_complete_all(model, heads, k - 1);
        let shorter = heads.take(k - 1);
        let longer = heads.take(k);
        assert(longer.drop_last() =~= shorter);
        assert(longer.last() == heads[k - 1]);
        let head = heads[k - 1];
        let before = model.complete_all(shorter);
        let after = before.complete(head);
        let old_table = table.reclaimed_all(shorter);
        let freed = old_table.reclaimed(head);
        assert(model.complete_all(longer) == after);
        assert(table.reclaimed_all(longer) == freed);
        assert(before.holds(heads[k - 1]));
        chains::lemma_complete_describes(before, old_table, head);
        chains::lemma_chain_index(before.in_flight, head);
        let at = chains::chain_index(before.in_flight, head);
        let chain = before.in_flight[at];
        assert(chains::chain_at(old_table.desc, chain));
        assert forall|q: int, p: int|
            #![trigger chain[q], before.free[p]]
            0 <= q < chain.len() && 0 <= p < before.free.len() implies chain[q]
            != before.free[p] by {
            assert(before.in_flight[at][q] != before.free[p]);
        }
        chains::lemma_total_remove(before.in_flight, at);
        chains::lemma_reclaim_chain(old_table, chain, before.free);
        assert(model.in_flight.contains(chain));
        let origin = choose|a: int|
            0 <= a < model.in_flight.len() && model.in_flight[a] == chain;
        assert(longer[k - 1] == head);
        assert(forall|j: int| 0 <= j < k - 1 ==> #[trigger] longer[j] == shorter[j]);
        assert forall|value: u16| #[trigger] longer.contains(value) implies shorter.contains(value)
            || value == head by {
            let j = choose|j: int| 0 <= j < longer.len() && longer[j] == value;
            if j < k - 1 {
                assert(shorter[j] == value);
            }
        }
        assert forall|value: u16| #[trigger] shorter.contains(value) implies longer.contains(
            value,
        ) by {
            let j = choose|j: int| 0 <= j < shorter.len() && shorter[j] == value;
            assert(longer[j] == value);
        }
        assert forall|b: int|
            #![trigger after.in_flight[b]]
            0 <= b < after.in_flight.len() implies model.in_flight.contains(after.in_flight[b])
            && !longer.contains(after.in_flight[b][0]) by {
            let c = if b < at {
                b
            } else {
                b + 1
            };
            assert(after.in_flight[b] == before.in_flight[c]);
            assert(chains::chain_at(old_table.desc, before.in_flight[c]));
            if c < at {
                assert(before.in_flight[c][0] != before.in_flight[at][0]);
            } else {
                assert(before.in_flight[at][0] != before.in_flight[c][0]);
            }
        }
        assert forall|index: u16| #[trigger]
            belongs_to(model, longer, index) implies after.free.contains(index) by {
            let a = choose|a: int|
                0 <= a < model.in_flight.len() && longer.contains(
                    (#[trigger] model.in_flight[a])[0],
                ) && model.in_flight[a].contains(index);
            if shorter.contains(model.in_flight[a][0]) {
                assert(belongs_to(model, shorter, index));
                let p = choose|p: int| 0 <= p < before.free.len() && before.free[p] == index;
                assert(after.free[p + chain.len()] == index);
            } else {
                assert(before.in_flight.contains(model.in_flight[a]));
                let c = choose|c: int|
                    0 <= c < before.in_flight.len() && before.in_flight[c] == model.in_flight[a];
                assert(chains::chain_at(old_table.desc, before.in_flight[c]));
                assert(c == at) by {
                    if c < at {
                        assert(before.in_flight[c][0] != before.in_flight[at][0]);
                    } else if at < c {
                        assert(before.in_flight[at][0] != before.in_flight[c][0]);
                    }
                }
                let p = choose|p: int| 0 <= p < chain.len() && chain[p] == index;
                assert(after.free[chain.len() - 1 - p] == index);
            }
        }
        assert forall|i: int|
            0 <= i < table.desc.len() && !belongs_to(
                model,
                longer,
                i as u16,
            ) implies #[trigger] freed.desc[i] == table.desc[i] by {
            if belongs_to(model, shorter, i as u16) {
                let a = choose|a: int|
                    0 <= a < model.in_flight.len() && shorter.contains(
                        (#[trigger] model.in_flight[a])[0],
                    ) && model.in_flight[a].contains(i as u16);
                assert(longer.contains(model.in_flight[a][0]));
            }
            assert(longer.contains(model.in_flight[origin][0]));
            assert(!chain.contains(i as u16));
            assert(old_table.desc[i] == table.desc[i]);
        }
    }
}

/// Processing takes back every chain that the device handed back, and only those. None is left
/// waiting. Every descriptor of a returned chain is free and cleared, and every other descriptor is
/// as it was. In flight are exactly the other chains, and the count of free descriptors has grown
/// by those of the returned ones.
pub proof fn law_processing_takes_chains_back(pre: VirtQueue, post: VirtQueue)
    requires
        pre.wf(),
        pre.pending_valid(),
        VirtQueue::used_processed(pre, post),
    ensures
        post.wf(),
        post.pending().len() == 0,
        post.outstanding() == pre.outstanding() - pre.pending().len(),
        forall|index: u16| #[trigger]
            belongs_to(pre.model@, pre.pending_heads(), index) ==> {
                &&& post.model@.free.contains(index)
                &&& post.desc@[index as int] == chains::blank(post.desc@[index as int].next)
            },
        forall|i: int|
            0 <= i < QUEUE_SIZE && !belongs_to(pre.model@, pre.pending_heads(), i as u16)
                ==> #[trigger] post.desc@[i] == pre.desc@[i],
        forall|chain: Seq<u16>| #[trigger]
            post.model@.in_flight.contains(chain) <==> pre.model@.in_flight.contains(chain)
                && !pre.pending_heads().contains(chain[0]),
        post.free_count + chains::total(post.model@.in_flight) == pre.free_count + chains::total(
            pre.model@.in_flight,
        ),
{
    let heads = pre.pending_heads();
    let model = pre.model@;
    let after = post.model@;
    assert(heads.take(heads.len() as int) =~= heads);
    lemma_complete_all(model, heads, heads.len() as int);
    lemma_reclaim_all(model, pre.table(), heads, heads.len() as int);
    assert forall|index: u16| #[trigger] belongs_to(model, heads, index) implies {
        &&& after.free.contains(index)
        &&& post.desc@[index as int] == chains::blank(post.desc@[index as int].next)
    } by {
        let p = choose|p: int| 0 <= p < after.free.len() && after.free[p] == index;
        assert(post.desc@[after.free[p] as int] == post.desc@[index as int]);
    }
    assert forall|chain: Seq<u16>| #[trigger]
        after.in_flight.contains(chain) <==> model.in_flight.contains(chain) && !heads.contains(
            chain[0],
        ) by {
        if after.in_flight.contains(chain) {
            let b = choose|b: int| 0 <= b < after.in_flight.len() && after.in_flight[b] == chain;
            assert(model.in_flight.contains(after.in_flight[b]));
        }
        if model.in_flight.contains(chain) && !heads.contains(chain[0]) {
            let a = choose|a: int| 0 <= a < model.in_flight.len() && model.in_flight[a] == chain;
            assert(after.in_flight.contains(model.in_flight[a]));
        }
    }
}

/// Processing a used ring that holds nothing new changes nothing.
pub proof fn law_processing_nothing(pre: VirtQueue, post: VirtQueue)
    requires
        pre.pending().len() == 0,
        VirtQueue::used_processed(pre, post),
    ensures
        post.table() == pre.table(),
        post.model@ == pre.model@,
        post.last_used_idx == pre.last_used_idx,
        post.outstanding() == pre.outstanding(),
{
    assert(pre.pending_heads() =~= Seq::empty());
}

/// A chain that is added, handed back and processed leaves the queue as it was: the same chains in
/// flight and the same descriptors free, those of the chain at the front in reverse order. With a
/// chain of one descriptor even the order of the free list is the same.
pub proof fn law_chain_round_trip(
    pre: VirtQueue,
    added: VirtQueue,
    used: VirtQueue,
    post: VirtQueue,
    chain: Seq<VirtqDesc>,
    len: u32,
)
    requires
        pre.wf(),
        pre.pending().len() == 0,
        0 < chain.len() <= pre.model@.free.len(),
        VirtQueue::chain_added(pre, added, chain),
        VirtQueue::chain_used(added, used, pre.model@.free[0], len),
        VirtQueue::used_processed(used, post),
    ensures
        used.pending() == seq![(pre.model@.free[0], len)],
        used.pending_valid(),
        post.wf(),
        post.free_count == pre.free_count,
        post.outstanding() == pre.outstanding(),
        post.model@.in_flight == pre.model@.in_flight,
        post.model@.free == pre.model@.free.take(chain.len() as int).reverse()
            + pre.model@.free.skip(chain.len() as int),
        chain.len() == 1 ==> post.model@.free == pre.model@.free,
{
    let n = chain.len() as int;
    let head = pre.model@.free[0];
    let list = added.model@.in_flight;
    let last = list.len() - 1;
    VirtQueue::lemma_chain_added(pre, added, chain);
    assert(list[last][0] == head);
    chains::lemma_holds(added.model@, last, head);
    assert(added.pending() =~= Seq::empty());
    assert(added.pending_heads() =~= Seq::empty());
    law_used_chain_waits(added, used, head, len);
    assert(used.pending() =~= seq![(head, len)]);
    assert(used.pending_heads() =~= seq![head]);
    chains::lemma_chain_index(list, head);
    let at = chains::chain_index(list, head);
    assert(at == last) by {
        if at < last {
            assert(chains::chain_at(added.desc@, list[at]));
            assert(list[at][0] != list[last][0]);
        }
    }
    assert(used.pending_heads().drop_last() =~= Seq::empty());
    assert(used.model@.complete_all(used.pending_heads()) == used.model@.complete(head)) by {
        reveal_with_fuel(QueueModel::complete_all, 2);
    }
    assert(post.model@.in_flight =~= pre.model@.in_flight);
    assert(list[last] == pre.model@.free.take(n));
    if n == 1 {
        assert(post.model@.free =~= pre.model@.free);
    }
}

/// The first flag of the available ring tells whether interrupts are unwanted.
pub open spec fn interrupts_agree(queue: VirtQueue) -> bool {
    queue.irq_enabled <==> queue.avail.flags & 1 == 0
}

/// The flag that the device sees always agrees with what the driver wants: it does on a new queue,
/// adding and processing chains keep it, and asking for interrupts or for none sets it right.
/// Neither touches the other flags.
pub proof fn law_interrupt_flag_agrees(pre: VirtQueue, post: VirtQueue, chain: Seq<VirtqDesc>)
    ensures
        pre.fresh(pre.queue_id) ==> interrupts_agree(pre),
        interrupts_agree(pre) && VirtQueue::chain_added(pre, post, chain) ==> interrupts_agree(
            post,
        ),
        interrupts_agree(pre) && VirtQueue::used_processed(pre, post) ==> interrupts_agree(post),
        post.avail.flags == pre.avail.flags | 1 && !post.irq_enabled ==> {
            &&& interrupts_agree(post)
            &&& post.avail.flags & !1 == pre.avail.flags & !1
        },
        post.avail.flags == pre.avail.flags & !1 && post.irq_enabled ==> {
            &&& interrupts_agree(post)
            &&& post.avail.flags & !1 == pre.avail.flags & !1
        },
{
    let flags = pre.avail.flags;
    assert(0u16 & 1 == 0) by (bit_vector);
    assert((flags | 1) & 1 == 1) by (bit_vector);
    assert((flags & !1) & 1 == 0) by (bit_vector);
    assert((flags | 1) & !1 == flags & !1) by (bit_vector);
    assert((flags & !1) & !1 == flags & !1) by (bit_vector);
}

/// What the device finds of a buffer: its length, and whether it is to be written.
pub open spec fn buffer_at(queue: VirtQueue, index: u16) -> (u32, bool) {
    let desc = queue.desc@[index as int];
    (desc.len, desc.flags & VIRTQ_DESC_F_WRITE != 0)
}

/// Whether a descriptor stands for a buffer: it holds the address of that very buffer and, modulo
/// 2^32, its length.
pub open spec fn stands_for(desc: VirtqDesc, buffer: Placed) -> bool {
    desc.addr == buffer.addr() && desc.len == buffer.bytes().len() % 0x1_0000_0000
}

/// The device finds a request as two buffers: the request, which it reads, and room for the reply,
/// which it writes. Each descriptor holds the address of the buffer that it stands for.
pub proof fn law_request_has_two_buffers(
    pre: VirtQueue,
    post: VirtQueue,
    request: Seq<u8>,
    reply_bytes: u32,
)
    requires
        pre.wf(),
        pre.model@.free.len() >= 2,
        VirtQueue::request_posted(pre, post, request, reply_bytes),
    ensures
        post.wf(),
        ({
            let walk = post.model@.in_flight.last();
            &&& chains::chain_at(post.desc@, walk)
            &&& walk.len() == 2
            &&& buffer_at(post, walk[0]) == (request.len() as u32, false)
            &&& buffer_at(post, walk[1]) == (reply_bytes, true)
            &&& request.len() <= u32::MAX ==> exists|asked: Placed, reply: Placed|
                {
                    &&& asked.bytes() == request
                    &&& reply.bytes().len() == reply_bytes
                    &&& #[trigger] stands_for(post.desc@[walk[0] as int], asked)
                    &&& #[trigger] stands_for(post.desc@[walk[1] as int], reply)
                }
        }),
        post.free_count == pre.free_count - 2,
        post.outstanding() == pre.outstanding() + 1,
        post.posted@.len() == pre.posted@.len() + 1,
        forall|k: int|
            0 <= k < pre.posted@.len() ==> #[trigger] post.posted@[k] == pre.posted@[k],
        post.posted@.last().len() == 1 && post.posted@.last()[0] == request,
{
    let (asked, reply) = choose|asked: Placed, reply: Placed|
        {
            &&& asked.bytes() == request
            &&& reply.bytes().len() == reply_bytes
            &&& VirtQueue::chain_added(
                pre,
                post,
                seq![
                    #[trigger] VirtqDesc::spec_readable(asked.addr(), request.len() as u32),
                    #[trigger] VirtqDesc::spec_writable(reply.addr(), reply_bytes),
                ],
            )
        };
    let chain = seq![
        VirtqDesc::spec_readable(asked.addr(), request.len() as u32),
        VirtqDesc::spec_writable(reply.addr(), reply_bytes),
    ];
    VirtQueue::lemma_chain_added(pre, post, chain);
    law_added_chain_reads_back(pre, post, chain);
    let walk = post.model@.in_flight.last();
    let first = post.desc@[walk[0] as int];
    let second = post.desc@[walk[1] as int];
    assert(0u16 & 2u16 == 0) by (bit_vector);
    assert(2u16 & 2u16 == 2) by (bit_vector);
    assert(first.len == chain[0].len && second.len == chain[1].len);
    assert(first.addr == asked.addr() && second.addr == reply.addr());
    if request.len() <= u32::MAX {
        assert(stands_for(first, asked));
        assert(stands_for(second, reply));
    }
}

/// The device finds PCM data as three buffers: the header and the data, which it reads, and room
/// for the status, which it writes. Each descriptor holds the address of the buffer that it stands
/// for.
pub proof fn law_frames_have_three_buffers(
    pre: VirtQueue,
    post: VirtQueue,
    header: Seq<u8>,
    data: Seq<u8>,
    status_bytes: u32,
)
    requires
        pre.wf(),
        pre.model@.free.len() >= 3,
        VirtQueue::frames_posted(pre, post, header, data, status_bytes),
    ensures
        post.wf(),
        ({
            let walk = post.model@.in_flight.last();
            &&& chains::chain_at(post.desc@, walk)
            &&& walk.len() == 3
            &&& buffer_at(post, walk[0]) == (header.len() as u32, false)
            &&& buffer_at(post, walk[1]) == ((data.len() % 0x1_0000_0000) as u32, false)
            &&& buffer_at(post, walk[2]) == (status_bytes, true)
            &&& header.len() <= u32::MAX ==> exists|head: Placed, body: Placed, status: Placed|
                {
                    &&& head.bytes() == header
                    &&& body.bytes() == data
                    &&& status.bytes().len() == status_bytes
                    &&& #[trigger] stands_for(post.desc@[walk[0] as int], head)
                    &&& #[trigger] stands_for(post.desc@[walk[1] as int], body)
                    &&& #[trigger] stands_for(post.desc@[walk[2] as int], status)
                }
        }),
        post.free_count == pre.free_count - 3,
        post.outstanding() == pre.outstanding() + 1,
        post.posted@.len() == pre.posted@.len() + 1,
        forall|k: int|
            0 <= k < pre.posted@.len() ==> #[trigger] post.posted@[k] == pre.posted@[k],
        post.posted@.last().len() == 2 && post.posted@.last()[0] == header && post.posted@.last()[1]
            == data,
{
    let data_len = (data.len() % 0x1_0000_0000) as u32;
    let (head, body, status) = choose|head: Placed, body: Placed, status: Placed|
        {
            &&& head.bytes() == header
            &&& body.bytes() == data
            &&& status.bytes().len() == status_bytes
            &&& VirtQueue::chain_added(
                pre,
                post,
                seq![
                    #[trigger] VirtqDesc::spec_readable(head.addr(), header.len() as u32),
                    #[trigger] VirtqDesc::spec_readable(body.addr(), data_len),
                    #[trigger] VirtqDesc::spec_writable(status.addr(), status_bytes),
                ],
            )
        };
    let chain = seq![
        VirtqDesc::spec_readable(head.addr(), header.len() as u32),
        VirtqDesc::spec_readable(body.addr(), data_len),
        VirtqDesc::spec_writable(status.addr(), status_bytes),
    ];
    VirtQueue::lemma_chain_added(pre, post, chain);
    law_added_chain_reads_back(pre, post, chain);
    let walk = post.model@.in_flight.last();
    let first = post.desc@[walk[0] as int];
    let second = post.desc@[walk[1] as int];
    let third = post.desc@[walk[2] as int];
    assert(0u16 & 2u16 == 0) by (bit_vector);
    assert(2u16 & 2u16 == 2) by (bit_vector);
    assert(first.len == chain[0].len && second.len == chain[1].len && third.len == chain[2].len);
    assert(first.addr == head.addr() && second.addr == body.addr() && third.addr == status.addr());
    if header.len() <= u32::MAX {
        assert(stands_for(first, head));
        assert(stands_for(second, body));
        assert(stands_for(third, status));
    }
}

/// Requests are posted in order, one chain of two descriptors each, and nothing is posted beside
/// them.
pub proof fn law_requests_are_posted_in_order(
    pre: VirtQueue,
    post: VirtQueue,
    requests: Seq<Seq<u8>>,
    reply_bytes: u32,
)
    requires
        pre.wf(),
        2 * requests.len() <= pre.model@.free.len(),
        VirtQueue::requests_posted(pre, post, requests, reply_bytes),
    ensures
        post.wf(),
        post.posted@ == pre.posted@ + VirtQueue::recorded(requests),
        post.free_count == pre.free_count - 2 * requests.len(),
        post.outstanding() == pre.outstanding() + requests.len(),
    decreases requests.len(),
{
    VirtQueue::lemma_recorded(pre, post, requests, reply_bytes);
    if requests.len() > 0 {
        let shorter = requests.drop_last();
        let mid = choose|mid: VirtQueue|
            #![trigger VirtQueue::request_posted(mid, post, requests.last(), reply_bytes)]
            VirtQueue::requests_posted(pre, mid, shorter, reply_bytes) && VirtQueue::request_posted(
                mid,
                post,
                requests.last(),
                reply_bytes,
            );
        law_requests_are_posted_in_order(pre, mid, shorter, reply_bytes);
        law_request_has_two_buffers(mid, post, requests.last(), reply_bytes);
    }
}

/// Adding a chain makes exactly one more ring entry available, behind those before it: the entry
/// that the available index named, modulo 256, holds the head, every other entry is as it was, and
/// the index has gone one further, modulo 2^16. What the device handed back is not touched. The
/// descriptors are taken off the free list in its order, and the rest of the list is kept.
pub proof fn law_added_chain_is_available(pre: VirtQueue, post: VirtQueue, chain: Seq<VirtqDesc>)
    requires
        pre.wf(),
        0 < chain.len() <= pre.model@.free.len(),
        VirtQueue::chain_added(pre, post, chain),
    ensures
        post.avail.ring@.len() == 256,
        post.avail.ring@[pre.avail.idx as int % 256] == pre.free_head,
        forall|i: int|
            0 <= i < 256 && i != pre.avail.idx as int % 256 ==> #[trigger] post.avail.ring@[i]
                == pre.avail.ring@[i],
        post.avail.idx == (pre.avail.idx + 1) % 0x1_0000,
        post.outstanding() == pre.outstanding() + 1,
        post.free_count == pre.free_count - chain.len(),
        ({
            let walk = post.model@.in_flight.last();
            &&& walk[0] == pre.free_head
            &&& forall|k: int|
                0 <= k < chain.len() - 1 ==> walk[k + 1] == pre.desc@[
                #[trigger] walk[k] as int].next
            &&& post.free_head == pre.desc@[walk.last() as int].next
        }),
        post.num_added == 0,
        post.last_used_idx == pre.last_used_idx,
        post.pending() == pre.pending(),
        post.queue_id == pre.queue_id,
{
    VirtQueue::lemma_chain_added(pre, post, chain);
    chains::lemma_total_bound(post.model@.in_flight);
    let walk = post.model@.in_flight.last();
    let free = pre.model@.free;
    assert(walk =~= free.take(chain.len() as int));
    assert forall|k: int| 0 <= k < chain.len() - 1 implies walk[k + 1] == pre.desc@[
    #[trigger] walk[k] as int].next by {
        assert(pre.desc@[free[k] as int].next == free[k + 1]);
    }
    if chain.len() < free.len() {
        let n = chain.len() as int;
        assert(pre.desc@[free[n - 1] as int].next == free[n]);
    }
    assert(post.pending() =~= pre.pending());
}

/// A chain that the device hands back is the entry of the used ring that the used index named,
/// modulo 256; every other entry is as it was, and the index has gone one further, modulo 2^16.
pub proof fn law_used_chain_is_entered(pre: VirtQueue, post: VirtQueue, head: u16, len: u32)
    requires
        VirtQueue::chain_used(pre, post, head, len),
    ensures
        post.used.ring@[pre.used.idx as int % 256].id == head,
        post.used.ring@[pre.used.idx as int % 256].len == len,
        forall|i: int|
            0 <= i < 256 && i != pre.used.idx as int % 256 ==> #[trigger] post.used.ring@[i]
                == pre.used.ring@[i],
        post.used.idx == (pre.used.idx + 1) % 0x1_0000,
        post.avail == pre.avail,
        post.desc == pre.desc,
        post.last_used_idx == pre.last_used_idx,
{
}

/// What the driver has not read yet are the entries of the used ring from where it stopped reading
/// up to the used index, modulo 2^16; entry `k` of them stands `k` further on, modulo 256.
pub proof fn law_unread_entries(queue: VirtQueue)
    ensures
        (queue.last_used_idx + queue.pending().len()) % 0x1_0000 == queue.used.idx,
        queue.pending().len() < 0x1_0000,
        forall|k: int|
            0 <= k < queue.pending().len() ==> {
                let entry = queue.used.ring@[(queue.last_used_idx + k) % 256];
                &&& (#[trigger] queue.pending()[k]).0 == entry.id % 0x1_0000
                &&& queue.pending()[k].1 == entry.len
            },
        queue.pending_heads().len() == queue.pending().len(),
        forall|k: int|
            0 <= k < queue.pending().len() ==> #[trigger] queue.pending_heads()[k]
                == queue.pending()[k].0,
{
}

/// On a new queue all 256 descriptors are free, cleared and linked in ascending order from the
/// first on; nothing is available, nothing was handed back, and interrupts are wanted.
pub proof fn law_new_queue(queue: VirtQueue, queue_id: SndQueue)
    requires
        queue.fresh(queue_id),
    ensures
        queue.queue_id == queue_id,
        queue.desc@.len() == 256,
        queue.free_head == 0,
        queue.free_count == 256,
        forall|i: int|
            0 <= i < 256 ==> {
                let desc = #[trigger] queue.desc@[i];
                &&& desc.addr == 0 && desc.len == 0 && desc.flags == 0
                &&& i < 255 ==> desc.next == i + 1
                &&& i == 255 ==> desc.next == 0
            },
        queue.avail.idx == 0 && queue.used.idx == 0 && queue.last_used_idx == 0,
        queue.avail.flags == 0 && queue.irq_enabled,
        queue.num_added == 0,
        queue.outstanding() == 0,
        queue.pending().len() == 0,
        queue.model@.in_flight.len() == 0,
        queue.posted@.len() == 0,
{
}

/// Processing reads up to the used index and touches neither ring: what is available, what was
/// handed back, the flags and the record of what was posted stay as they were.
pub proof fn law_processing_leaves_the_rings(pre: VirtQueue, post: VirtQueue)
    requires
        VirtQueue::used_processed(pre, post),
    ensures
        post.last_used_idx == pre.used.idx,
        post.avail == pre.avail,
        post.used == pre.used,
        post.queue_id == pre.queue_id,
        post.num_added == pre.num_added,
        post.irq_enabled == pre.irq_enabled,
        post.posted@ == pre.posted@,
{
}

/// A descriptor names the buffer that it was made for and nothing behind it. The device reads it
/// where its flags are 0, and writes it where they are 2.
pub proof fn law_descriptors_name_their_buffers(addr: u64, len: u32)
    ensures
        VirtqDesc::spec_readable(addr, len).addr == addr,
        VirtqDesc::spec_readable(addr, len).len == len,
        VirtqDesc::spec_readable(addr, len).flags == 0,
        VirtqDesc::spec_readable(addr, len).next == 0,
        VirtqDesc::spec_writable(addr, len).addr == addr,
        VirtqDesc::spec_writable(addr, len).len == len,
        VirtqDesc::spec_writable(addr, len).flags == 2,
        VirtqDesc::spec_writable(addr, len).next == 0,
{
}

} // verus!
