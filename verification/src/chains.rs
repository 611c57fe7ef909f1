//! Mathematical model of a descriptor table: a free list and the chains in flight.
use crate::protocol::VIRTQ_DESC_F_NEXT;
use crate::virtqueue::VirtqDesc;
use vstd::prelude::*;

verus! {

/// Who holds the descriptors of a table.
#[verifier::ext_equal]
pub struct QueueModel {
    /// Free descriptors, in the order in which they will be handed out.
    pub free: Seq<u16>,
    /// Chains that the device holds, oldest first, each from its head to its tail.
    pub in_flight: Seq<Seq<u16>>,
}

/// A descriptor table with the head and the length of its free list.
#[verifier::ext_equal]
pub struct Table {
    /// The descriptors.
    pub desc: Seq<VirtqDesc>,
    /// Index of the first free descriptor.
    pub head: u16,
    /// Number of free descriptors.
    pub count: u16,
}

/// Whether a descriptor is followed by another one in its chain.
pub open spec fn has_next(desc: VirtqDesc) -> bool {
    desc.flags & VIRTQ_DESC_F_NEXT != 0
}

/// A free descriptor in front of `next`.
pub open spec fn blank(next: u16) -> VirtqDesc {
    VirtqDesc { addr: 0, len: 0, flags: 0, next }
}

/// `free` can be read off the table by following `next` from `head`, and its entries are cleared.
pub open spec fn free_list_at(desc: Seq<VirtqDesc>, head: u16, free: Seq<u16>) -> bool {
    &&& free.len() > 0 ==> head == free[0]
    &&& forall|i: int| 0 <= i < free.len() ==> #[trigger] free[i] < desc.len()
    &&& forall|i: int|
        0 <= i < free.len() ==> #[trigger] desc[free[i] as int] == blank(desc[free[i] as int].next)
    &&& forall|i: int, j: int|
        #![trigger desc[free[i] as int], free[j]]
        0 <= i && j == i + 1 && j < free.len() ==> desc[free[i] as int].next == free[j]
}

/// `chain` can be read off the table by following `next` while the flag is set.
pub open spec fn chain_at(desc: Seq<VirtqDesc>, chain: Seq<u16>) -> bool {
    &&& chain.len() > 0
    &&& forall|i: int| 0 <= i < chain.len() ==> #[trigger] chain[i] < desc.len()
    &&& forall|i: int, j: int|
        #![trigger desc[chain[i] as int], chain[j]]
        0 <= i && j == i + 1 && j < chain.len() ==> desc[chain[i] as int].next == chain[j]
    &&& forall|i: int|
        0 <= i < chain.len() ==> (has_next(#[trigger] desc[chain[i] as int]) <==> i + 1
            < chain.len())
}

/// Number of descriptors in `chains`.
pub open spec fn total(chains: Seq<Seq<u16>>) -> nat
    decreases chains.len(),
{
    if chains.len() == 0 {
        0
    } else {
        total(chains.drop_last()) + chains.last().len()
    }
}

/// Position of the first chain that starts with `head`, or the number of chains.
pub open spec fn chain_index(chains: Seq<Seq<u16>>, head: u16) -> int
    decreases chains.len(),
{
    if chains.len() == 0 {
        0
    } else if chain_index(chains.drop_last(), head) < chains.len() - 1 {
        chain_index(chains.drop_last(), head)
    } else if chains.last()[0] == head {
        chains.len() - 1
    } else {
        chains.len() as int
    }
}

impl QueueModel {
    /// No descriptor occurs twice, neither in the free list nor in the chains.
    pub open spec fn disjoint(self) -> bool {
        &&& self.free.no_duplicates()
        &&& forall|a: int|
            0 <= a < self.in_flight.len() ==> (#[trigger] self.in_flight[a]).no_duplicates()
        &&& forall|a: int, i: int, k: int|
            #![trigger self.in_flight[a][i], self.free[k]]
            0 <= a < self.in_flight.len() && 0 <= i < self.in_flight[a].len() && 0 <= k
                < self.free.len() ==> self.in_flight[a][i] != self.free[k]
        &&& forall|a: int, b: int, i: int, k: int|
            #![trigger self.in_flight[a][i], self.in_flight[b][k]]
            0 <= a < b < self.in_flight.len() && 0 <= i < self.in_flight[a].len() && 0 <= k
                < self.in_flight[b].len() ==> self.in_flight[a][i] != self.in_flight[b][k]
    }

    /// The model after the first `n` free descriptors became a chain.
    pub open spec fn submit(self, n: int) -> QueueModel {
        QueueModel {
            free: self.free.skip(n),
            in_flight: self.in_flight.push(self.free.take(n)),
        }
    }

    /// Whether a chain in flight starts with `head`.
    pub open spec fn holds(self, head: u16) -> bool {
        chain_index(self.in_flight, head) < self.in_flight.len()
    }

    /// The model after the chain that starts with `head` was returned: its descriptors go to the
    /// front of the free list, the tail of the chain first. Nothing changes where no chain does.
    pub open spec fn complete(self, head: u16) -> QueueModel {
        let at = chain_index(self.in_flight, head);
        if at < self.in_flight.len() {
            QueueModel {
                free: self.in_flight[at].reverse() + self.free,
                in_flight: self.in_flight.remove(at),
            }
        } else {
            self
        }
    }

    /// The model after the chains that start with `heads` were returned, one after the other.
    pub open spec fn complete_all(self, heads: Seq<u16>) -> QueueModel
        decreases heads.len(),
    {
        if heads.len() == 0 {
            self
        } else {
            self.complete_all(heads.drop_last()).complete(heads.last())
        }
    }

    /// The model is what the table says: the free list and every chain can be read off it.
    pub open spec fn describes(self, table: Table) -> bool {
        &&& self.disjoint()
        &&& self.free.len() + total(self.in_flight) == table.desc.len()
        &&& self.free.len() == table.count
        &&& free_list_at(table.desc, table.head, self.free)
        &&& forall|a: int|
            0 <= a < self.in_flight.len() ==> chain_at(table.desc, #[trigger] self.in_flight[a])
    }
}

/// Number of descriptors that have a successor.
pub open spec fn links(desc: Seq<VirtqDesc>) -> nat
    decreases desc.len(),
{
    if desc.len() == 0 {
        0
    } else {
        links(desc.drop_last()) + if has_next(desc.last()) {
            1nat
        } else {
            0nat
        }
    }
}

impl Table {
    /// Every successor that a descriptor names lies in the table.
    pub open spec fn links_in_range(self) -> bool {
        forall|i: int|
            0 <= i < self.desc.len() && has_next(#[trigger] self.desc[i]) ==> self.desc[i].next
                < self.desc.len()
    }

    /// The table after descriptor `index` was put at the front of the free list.
    pub open spec fn freed(self, index: u16) -> Table {
        Table {
            desc: self.desc.update(index as int, blank(self.head)),
            head: index,
            count: self.count.saturating_add(1),
        }
    }

    /// The table after the chain from `cur` on was freed, head first.
    pub open spec fn reclaimed(self, cur: u16) -> Table
        decreases links(self.desc),
    {
        if cur < self.desc.len() && has_next(self.desc[cur as int]) {
            proof {
                lemma_links_update(self.desc, cur as int, blank(self.head));
                lemma_blank_has_no_next(self.head);
            }
            self.freed(cur).reclaimed(self.desc[cur as int].next)
        } else {
            self.freed(cur)
        }
    }

    /// The table after the chains from `heads` on were freed, one after the other.
    pub open spec fn reclaimed_all(self, heads: Seq<u16>) -> Table
        decreases heads.len(),
    {
        if heads.len() == 0 {
            self
        } else {
            self.reclaimed_all(heads.drop_last()).reclaimed(heads.last())
        }
    }
}

/// A free descriptor has no successor in a chain.
pub proof fn lemma_blank_has_no_next(next: u16)
    ensures
        !has_next(blank(next)),
{
    assert(0u16 & 1u16 == 0) by (bit_vector);
}

/// Overwriting a descriptor changes the number of links by its own.
pub proof fn lemma_links_update(desc: Seq<VirtqDesc>, at: int, new: VirtqDesc)
    requires
        0 <= at < desc.len(),
    ensures
        links(desc.update(at, new)) + (if has_next(desc[at]) {
            1nat
        } else {
            0nat
        }) == links(desc) + (if has_next(new) {
            1nat
        } else {
            0nat
        }),
    decreases desc.len(),
{
    let changed = desc.update(at, new);
    if at == desc.len() - 1 {
        assert(changed.drop_last() =~= desc.drop_last());
    } else {
        assert(changed.drop_last() =~= desc.drop_last().update(at, new));
        lemma_links_update(desc.drop_last(), at, new);
    }
}

/// One more chain adds its length to the total.
pub proof fn lemma_total_push(chains: Seq<Seq<u16>>, chain: Seq<u16>)
    ensures
        total(chains.push(chain)) == total(chains) + chain.len(),
{
    assert(chains.push(chain).drop_last() =~= chains);
}

/// One chain less takes its length from the total.
pub proof fn lemma_total_remove(chains: Seq<Seq<u16>>, at: int)
    requires
        0 <= at < chains.len(),
    ensures
        total(chains.remove(at)) + chains[at].len() == total(chains),
    decreases chains.len(),
{
    if at == chains.len() - 1 {
        assert(chains.remove(at) =~= chains.drop_last());
    } else {
        assert(chains.remove(at).drop_last() =~= chains.drop_last().remove(at));
        lemma_total_remove(chains.drop_last(), at);
    }
}

/// There are at least as many descriptors as chains, where no chain is empty.
pub proof fn lemma_total_bound(chains: Seq<Seq<u16>>)
    requires
        forall|a: int| 0 <= a < chains.len() ==> (#[trigger] chains[a]).len() > 0,
    ensures
        chains.len() <= total(chains),
    decreases chains.len(),
{
    if chains.len() > 0 {
        assert forall|a: int| 0 <= a < chains.drop_last().len() implies (
        #[trigger] chains.drop_last()[a]).len() > 0 by {
            assert(chains.drop_last()[a] == chains[a]);
        }
        lemma_total_bound(chains.drop_last());
    }
}

/// What `chain_index` finds starts with the head, and nothing before it does.
pub proof fn lemma_chain_index(chains: Seq<Seq<u16>>, head: u16)
    ensures
        0 <= chain_index(chains, head) <= chains.len(),
        chain_index(chains, head) < chains.len() ==> chains[chain_index(chains, head)][0] == head,
        forall|a: int|
            0 <= a < chain_index(chains, head) ==> (#[trigger] chains[a])[0] != head,
    decreases chains.len(),
{
    if chains.len() > 0 {
        lemma_chain_index(chains.drop_last(), head);
        assert forall|a: int| 0 <= a < chain_index(chains, head) implies (#[trigger] chains[a])[0]
            != head by {
            if a < chains.len() - 1 {
                assert(chains.drop_last()[a] == chains[a]);
            }
        }
    }
}

/// Submitting a chain keeps the descriptors apart and their number.
pub proof fn lemma_submit(model: QueueModel, n: int)
    requires
        model.disjoint(),
        0 < n <= model.free.len(),
    ensures
        model.submit(n).disjoint(),
        model.submit(n).free.len() + total(model.submit(n).in_flight) == model.free.len() + total(
            model.in_flight,
        ),
{
    let next = model.submit(n);
    lemma_total_push(model.in_flight, model.free.take(n));
    assert forall|a: int, b: int, i: int, k: int|
        #![trigger next.in_flight[a][i], next.in_flight[b][k]]
        0 <= a < b < next.in_flight.len() && 0 <= i < next.in_flight[a].len() && 0 <= k
            < next.in_flight[b].len() implies next.in_flight[a][i] != next.in_flight[b][k] by {
        assert(next.in_flight[a][i] == model.in_flight[a][i]);
        if b == model.in_flight.len() {
            assert(next.in_flight[b][k] == model.free[k]);
        } else {
            assert(next.in_flight[b][k] == model.in_flight[b][k]);
        }
    }
    assert forall|a: int, i: int, k: int|
        #![trigger next.in_flight[a][i], next.free[k]]
        0 <= a < next.in_flight.len() && 0 <= i < next.in_flight[a].len() && 0 <= k
            < next.free.len() implies next.in_flight[a][i] != next.free[k] by {
        assert(next.free[k] == model.free[k + n]);
        if a == model.in_flight.len() {
            assert(next.in_flight[a][i] == model.free[i]);
        } else {
            assert(next.in_flight[a][i] == model.in_flight[a][i]);
        }
    }
    assert forall|a: int| 0 <= a < next.in_flight.len() implies (
    #[trigger] next.in_flight[a]).no_duplicates() by {
        if a < model.in_flight.len() {
            assert(next.in_flight[a] == model.in_flight[a]);
        }
    }
}

/// Returning a chain keeps the descriptors apart and their number.
pub proof fn lemma_complete(model: QueueModel, head: u16)
    requires
        model.disjoint(),
        model.holds(head),
    ensures
        model.complete(head).disjoint(),
        model.complete(head).free.len() + total(model.complete(head).in_flight) == model.free.len()
            + total(model.in_flight),
{
    let at = chain_index(model.in_flight, head);
    lemma_chain_index(model.in_flight, head);
    let chain = model.in_flight[at];
    let next = model.complete(head);
    lemma_total_remove(model.in_flight, at);
    let from = |a: int|
        if a < at {
            a
        } else {
            a + 1
        };
    assert forall|a: int| 0 <= a < next.in_flight.len() implies #[trigger] next.in_flight[a]
        == model.in_flight[from(a)] by {}
    assert forall|k: int| 0 <= k < next.free.len() implies #[trigger] next.free[k] == (if k
        < chain.len() {
        chain[chain.len() - 1 - k]
    } else {
        model.free[k - chain.len()]
    }) by {}
    assert forall|i: int, j: int|
        0 <= i < next.free.len() && 0 <= j < next.free.len() && i != j implies next.free[i]
        != next.free[j] by {
        if i < chain.len() && j >= chain.len() {
            assert(model.in_flight[at][chain.len() - 1 - i] != model.free[j - chain.len()]);
        }
        if j < chain.len() && i >= chain.len() {
            assert(model.in_flight[at][chain.len() - 1 - j] != model.free[i - chain.len()]);
        }
    }
    assert forall|a: int, i: int, k: int|
        #![trigger next.in_flight[a][i], next.free[k]]
        0 <= a < next.in_flight.len() && 0 <= i < next.in_flight[a].len() && 0 <= k
            < next.free.len() implies next.in_flight[a][i] != next.free[k] by {
        assert(next.in_flight[a][i] == model.in_flight[from(a)][i]);
        if k < chain.len() {
            assert(next.free[k] == model.in_flight[at][chain.len() - 1 - k]);
        } else {
            assert(next.free[k] == model.free[k - chain.len()]);
        }
    }
    assert forall|a: int, b: int, i: int, k: int|
        #![trigger next.in_flight[a][i], next.in_flight[b][k]]
        0 <= a < b < next.in_flight.len() && 0 <= i < next.in_flight[a].len() && 0 <= k
            < next.in_flight[b].len() implies next.in_flight[a][i] != next.in_flight[b][k] by {
        assert(next.in_flight[a][i] == model.in_flight[from(a)][i]);
        assert(next.in_flight[b][k] == model.in_flight[from(b)][k]);
    }
}

/// Freeing a chain puts it, tail first, in front of the free list and touches nothing else.
pub proof fn lemma_reclaim_chain(table: Table, chain: Seq<u16>, free: Seq<u16>)
    requires
        chain_at(table.desc, chain),
        chain.no_duplicates(),
        free_list_at(table.desc, table.head, free),
        forall|i: int, k: int|
            #![trigger chain[i], free[k]]
            0 <= i < chain.len() && 0 <= k < free.len() ==> chain[i] != free[k],
        table.count == free.len(),
        free.len() + chain.len() <= u16::MAX,
    ensures
        table.reclaimed(chain[0]).desc.len() == table.desc.len(),
        table.reclaimed(chain[0]).count == free.len() + chain.len(),
        free_list_at(
            table.reclaimed(chain[0]).desc,
            table.reclaimed(chain[0]).head,
            chain.reverse() + free,
        ),
        forall|i: int|
            0 <= i < table.desc.len() && !chain.contains(i as u16)
                ==> #[trigger] table.reclaimed(chain[0]).desc[i] == table.desc[i],
    decreases chain.len(),
{
    let head = chain[0];
    let next = table.freed(head);
    let longer = seq![head] + free;
    lemma_blank_has_no_next(table.head);
    lemma_links_update(table.desc, head as int, blank(table.head));
    assert(chain.contains(head));
    assert(free_list_at(next.desc, next.head, longer)) by {
        assert forall|i: int| 0 <= i < longer.len() implies #[trigger] longer[i]
            < next.desc.len() by {
            if i > 0 {
                assert(longer[i] == free[i - 1]);
            }
        }
        assert forall|i: int| 0 <= i < longer.len() implies #[trigger] next.desc[longer[i] as int]
            == blank(next.desc[longer[i] as int].next) by {
            if i > 0 {
                assert(longer[i] == free[i - 1]);
                assert(next.desc[longer[i] as int] == table.desc[free[i - 1] as int]);
            }
        }
        assert forall|i: int, j: int|
            #![trigger next.desc[longer[i] as int], longer[j]]
            0 <= i && j == i + 1 && j < longer.len() implies next.desc[longer[i] as int].next
            == longer[j] by {
            assert(longer[j] == free[i]);
            if i > 0 {
                assert(longer[i] == free[i - 1]);
                assert(next.desc[longer[i] as int] == table.desc[free[i - 1] as int]);
            }
        }
    }
    if chain.len() == 1 {
        assert(chain.reverse() + free =~= longer);
    } else {
        let rest = chain.drop_first();
        assert(has_next(table.desc[head as int]));
        assert(table.desc[head as int].next == rest[0]) by {
            assert(chain[1] == rest[0]);
        }
        assert(chain_at(next.desc, rest)) by {
            assert forall|i: int| 0 <= i < rest.len() implies #[trigger] rest[i]
                < next.desc.len() by {
                assert(rest[i] == chain[i + 1]);
            }
            assert forall|i: int| 0 <= i < rest.len() implies #[trigger] next.desc[rest[i] as int]
                == table.desc[chain[i + 1] as int] by {
                assert(rest[i] == chain[i + 1]);
                assert(chain[i + 1] != chain[0]);
            }
            assert forall|i: int, j: int|
                #![trigger next.desc[rest[i] as int], rest[j]]
                0 <= i && j == i + 1 && j < rest.len() implies next.desc[rest[i] as int].next
                == rest[j] by {
                assert(rest[j] == chain[j + 1]);
            }
        }
        assert forall|i: int, k: int|
            #![trigger rest[i], longer[k]]
            0 <= i < rest.len() && 0 <= k < longer.len() implies rest[i] != longer[k] by {
            assert(rest[i] == chain[i + 1]);
            if k > 0 {
                assert(longer[k] == free[k - 1]);
            }
        }
        lemma_reclaim_chain(next, rest, longer);
        assert(rest.reverse() + longer =~= chain.reverse() + free);
        assert forall|i: int|
            0 <= i < table.desc.len() && !chain.contains(
                i as u16,
            ) implies #[trigger] table.reclaimed(chain[0]).desc[i] == table.desc[i] by {
            if rest.contains(i as u16) {
                let k = choose|k: int| 0 <= k < rest.len() && rest[k] == i as u16;
                assert(chain[k + 1] == i as u16);
            }
            assert(table.reclaimed(chain[0]) == next.reclaimed(rest[0]));
            assert(i as u16 != head);
        }
    }
}

/// Returning a chain to the model is freeing it in the table.
pub proof fn lemma_complete_describes(model: QueueModel, table: Table, head: u16)
    requires
        model.describes(table),
        model.holds(head),
        table.desc.len() <= u16::MAX,
    ensures
        model.complete(head).describes(table.reclaimed(head)),
{
    let at = chain_index(model.in_flight, head);
    lemma_chain_index(model.in_flight, head);
    lemma_complete(model, head);
    lemma_total_remove(model.in_flight, at);
    let chain = model.in_flight[at];
    let next = model.complete(head);
    assert forall|i: int, k: int|
        #![trigger chain[i], model.free[k]]
        0 <= i < chain.len() && 0 <= k < model.free.len() implies chain[i] != model.free[k] by {
        assert(model.in_flight[at][i] != model.free[k]);
    }
    lemma_reclaim_chain(table, chain, model.free);
    let after = table.reclaimed(head);
    assert forall|a: int| 0 <= a < next.in_flight.len() implies chain_at(
        after.desc,
        #[trigger] next.in_flight[a],
    ) by {
        let b = if a < at {
            a
        } else {
            a + 1
        };
        let other = model.in_flight[b];
        assert(next.in_flight[a] == other);
        assert(chain_at(table.desc, other));
        assert forall|i: int| 0 <= i < other.len() implies #[trigger] after.desc[other[i] as int]
            == table.desc[other[i] as int] by {
            if chain.contains(other[i]) {
                let k = choose|k: int| 0 <= k < chain.len() && chain[k] == other[i];
                assert(model.in_flight[at][k] == model.in_flight[b][i]);
            }
        }
    }
}

/// A chain that starts with `head` is found.
pub proof fn lemma_holds(model: QueueModel, at: int, head: u16)
    requires
        0 <= at < model.in_flight.len(),
        model.in_flight[at][0] == head,
    ensures
        model.holds(head),
{
    lemma_chain_index(model.in_flight, head);
}

/// Returning one chain leaves the others in flight.
pub proof fn lemma_complete_holds(model: QueueModel, head: u16, other: u16)
    requires
        model.holds(head),
        model.holds(other),
        head != other,
    ensures
        model.complete(head).holds(other),
{
    lemma_chain_index(model.in_flight, head);
    lemma_chain_index(model.in_flight, other);
    let at = chain_index(model.in_flight, head);
    let b = chain_index(model.in_flight, other);
    let after = model.complete(head);
    if b < at {
        assert(after.in_flight[b] == model.in_flight[b]);
        lemma_holds(after, b, other);
    } else {
        assert(after.in_flight[b - 1] == model.in_flight[b]);
        lemma_holds(after, b - 1, other);
    }
}

} // verus!
