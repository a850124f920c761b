//! Laws of the slot lifecycle protocol, proved over the abstract state in
//! [`crate::model`]. The contracts of [`crate::ring::Ring::recv`] and
//! [`crate::ring::Ring::release`] tie every execution to the transitions
//! `after_claim` and `after_release`, so each law below holds of the
//! executable ring as well.

use crate::model::{
    after_claim, after_release, can_claim, claim_fill, claim_index, claim_n, occupied_count,
    release_upto, tick, wf_model, RingModel, SlotModel, PACKET_LEN,
};
use vstd::arithmetic::div_mod::{lemma_mod_self_0, lemma_small_mod};
use vstd::prelude::*;

verus! {

proof fn lemma_occupied_count_le_len(s: Seq<SlotModel>)
    ensures
        occupied_count(s) <= s.len(),
    decreases s.len(),
{
    if s.len() > 0 {
        lemma_occupied_count_le_len(s.drop_last());
    }
}

proof fn lemma_occupied_count_full(s: Seq<SlotModel>)
    requires
        occupied_count(s) == s.len(),
    ensures
        forall|i: int| 0 <= i < s.len() ==> (#[trigger] s[i]).occupied,
    decreases s.len(),
{
    if s.len() > 0 {
        lemma_occupied_count_le_len(s.drop_last());
        lemma_occupied_count_full(s.drop_last());
        assert forall|i: int| 0 <= i < s.len() implies (#[trigger] s[i]).occupied by {
            if i < s.len() - 1 {
                assert(s.drop_last()[i] == s[i]);
            } else {
                assert(s[i] == s.last());
            }
        }
    }
}

proof fn lemma_occupied_count_update(s: Seq<SlotModel>, i: int, v: SlotModel)
    requires
        0 <= i < s.len(),
    ensures
        occupied_count(s.update(i, v)) == occupied_count(s) - (if s[i].occupied {
            1int
        } else {
            0int
        }) + (if v.occupied {
            1int
        } else {
            0int
        }),
    decreases s.len(),
{
    if i == s.len() - 1 {
        assert(s.update(i, v).drop_last() =~= s.drop_last());
        assert(s.update(i, v).last() == v);
    } else {
        lemma_occupied_count_update(s.drop_last(), i, v);
        assert(s.update(i, v).drop_last() =~= s.drop_last().update(i, v));
        assert(s.update(i, v).last() == s.last());
    }
}

/// Capacity bound: a ring of capacity N never has more than N occupied
/// slots — so never more than N live handles — and once every slot is
/// occupied, the next claim is refused.
pub proof fn lemma_capacity_bound(m: RingModel)
    requires
        wf_model(m),
    ensures
        occupied_count(m.slots) <= m.slots.len(),
        occupied_count(m.slots) == m.slots.len() ==> !can_claim(m),
{
    lemma_occupied_count_le_len(m.slots);
    if occupied_count(m.slots) == m.slots.len() {
        lemma_occupied_count_full(m.slots);
    }
}

/// A successful claim keeps the ring well formed and occupies exactly one
/// more slot.
pub proof fn lemma_claim_occupies_one(m: RingModel)
    requires
        wf_model(m),
        can_claim(m),
    ensures
        wf_model(after_claim(m)),
        occupied_count(after_claim(m).slots) == occupied_count(m.slots) + 1,
{
    lemma_occupied_count_update(
        m.slots,
        m.cursor,
        SlotModel {
            occupied: true,
            packet: claim_fill(m.cursor, PACKET_LEN as int),
            timestamp: tick(m.clock),
        },
    );
}

/// A release keeps the ring well formed and frees exactly the one slot it
/// names (one fewer occupied slot when that slot had a live handle).
pub proof fn lemma_release_frees_one(m: RingModel, k: int)
    requires
        wf_model(m),
        0 <= k < m.slots.len(),
    ensures
        wf_model(after_release(m, k)),
        m.slots[k].occupied ==> occupied_count(after_release(m, k).slots) == occupied_count(
            m.slots,
        ) - 1,
        !m.slots[k].occupied ==> occupied_count(after_release(m, k).slots) == occupied_count(
            m.slots,
        ),
{
    lemma_occupied_count_update(
        m.slots,
        k,
        SlotModel { occupied: false, packet: m.slots[k].packet, timestamp: m.slots[k].timestamp },
    );
}

/// No double issue: while the handle for slot k is live — slot k occupied —
/// no claim can return slot k.
pub proof fn lemma_no_double_issue(m: RingModel, k: int)
    requires
        wf_model(m),
        0 <= k < m.slots.len(),
        m.slots[k].occupied,
    ensures
        can_claim(m) ==> claim_index(m) != k,
{
}

/// Round-robin order: two consecutive successful claims return cyclically
/// consecutive slot indices.
pub proof fn lemma_round_robin(m: RingModel)
    requires
        wf_model(m),
        can_claim(m),
        can_claim(after_claim(m)),
    ensures
        claim_index(after_claim(m)) == (claim_index(m) + 1) % (m.slots.len() as int),
{
}

/// Release enables reuse: freeing slot k does not move the cursor — the
/// slot is handed out again only when the cursor next reaches k. Once the
/// cursor stands on k, the claim goes ahead and returns k; while it stands
/// elsewhere, a claim returns some other slot.
pub proof fn lemma_release_enables_reuse(m: RingModel, k: int)
    requires
        wf_model(m),
        0 <= k < m.slots.len(),
    ensures
        !after_release(m, k).slots[k].occupied,
        after_release(m, k).cursor == m.cursor,
        m.cursor == k ==> can_claim(after_release(m, k)) && claim_index(after_release(m, k)) == k,
        m.cursor != k && can_claim(after_release(m, k)) ==> claim_index(after_release(m, k)) != k,
{
}

/// A claim refreshes the claimed slot's timestamp to the advanced clock,
/// and the clock never runs backwards: afterwards, as before, no slot's
/// timestamp is ahead of it.
pub proof fn lemma_claim_refreshes_timestamp(m: RingModel)
    requires
        wf_model(m),
        can_claim(m),
    ensures
        after_claim(m).clock >= m.clock,
        after_claim(m).slots[claim_index(m)].timestamp == after_claim(m).clock,
        forall|i: int|
            0 <= i < m.slots.len() ==> (#[trigger] after_claim(m).slots[i]).timestamp
                <= after_claim(m).clock,
{
    lemma_claim_occupies_one(m);
}

/// Draining a ring whose slots are all free, starting with the cursor on
/// slot 0: the j-th claim succeeds and returns slot j — the indices come
/// out in strict cyclic order 0, 1, ..., n-1 — and after n claims exactly
/// the first n slots are occupied, each holding its deterministic fill.
/// Draining all N slots leaves the cursor back on slot 0 with every slot
/// occupied, so the (N+1)-th claim is refused.
pub proof fn lemma_drain(m: RingModel, n: nat)
    requires
        wf_model(m),
        m.cursor == 0,
        forall|i: int| 0 <= i < m.slots.len() ==> !(#[trigger] m.slots[i]).occupied,
        n <= m.slots.len(),
    ensures
        wf_model(claim_n(m, n)),
        claim_n(m, n).slots.len() == m.slots.len(),
        claim_n(m, n).cursor == (n as int) % (m.slots.len() as int),
        forall|i: int|
            0 <= i < m.slots.len() ==> ((#[trigger] claim_n(m, n).slots[i]).occupied <==> i < n),
        forall|i: int|
            0 <= i < n ==> (#[trigger] claim_n(m, n).slots[i]).packet == claim_fill(
                i,
                PACKET_LEN as int,
            ),
        forall|i: int|
            n <= i < m.slots.len() ==> (#[trigger] claim_n(m, n).slots[i]).packet
                == m.slots[i].packet,
        forall|j: nat|
            j < n ==> can_claim(#[trigger] claim_n(m, j)) && claim_index(claim_n(m, j)) == j,
        n == m.slots.len() ==> !can_claim(claim_n(m, n)),
    decreases n,
{
    let len = m.slots.len() as int;
    if n == 0 {
        lemma_small_mod(0, m.slots.len());
    } else {
        lemma_drain(m, (n - 1) as nat);
        let prev = claim_n(m, (n - 1) as nat);
        lemma_small_mod((n - 1) as nat, m.slots.len());
        assert(prev.cursor == n - 1);
        assert(!prev.slots[n - 1].occupied);
        lemma_claim_occupies_one(prev);
        if n < m.slots.len() {
            lemma_small_mod(n, m.slots.len());
        } else {
            lemma_mod_self_0(len);
        }
        assert(claim_n(m, n) == after_claim(prev));
        assert forall|i: int| 0 <= i < len implies ((#[trigger] claim_n(m, n).slots[i]).occupied
            <==> i < n) by {
            if i != n - 1 {
                assert(claim_n(m, n).slots[i] == prev.slots[i]);
            }
        }
        if n == m.slots.len() {
            assert(claim_n(m, n).cursor == 0);
            assert(claim_n(m, n).slots[0].occupied);
        }
    }
}

proof fn lemma_release_upto_frees(m: RingModel, k: nat)
    requires
        wf_model(m),
        k <= m.slots.len(),
    ensures
        wf_model(release_upto(m, k)),
        release_upto(m, k).slots.len() == m.slots.len(),
        release_upto(m, k).cursor == m.cursor,
        release_upto(m, k).clock == m.clock,
        forall|i: int| 0 <= i < k ==> !(#[trigger] release_upto(m, k).slots[i]).occupied,
        forall|i: int|
            k <= i < m.slots.len() ==> (#[trigger] release_upto(m, k).slots[i]) == m.slots[i],
        forall|i: int|
            0 <= i < k ==> (#[trigger] release_upto(m, k).slots[i]).packet == m.slots[i].packet,
    decreases k,
{
    if k > 0 {
        lemma_release_upto_frees(m, (k - 1) as nat);
        let prev = release_upto(m, (k - 1) as nat);
        lemma_release_frees_one(prev, k - 1);
        assert forall|i: int| 0 <= i < k implies !(#[trigger] release_upto(m, k).slots[i]).occupied
            by {
            if i != k - 1 {
                assert(release_upto(m, k).slots[i] == prev.slots[i]);
            }
        }
    }
}

/// Idempotent drain-refill: drain a fresh-state ring of all N slots,
/// release every handle, and drain again. Both drains succeed N times with
/// the identical index sequence 0, 1, ..., N-1; both leave the ring full,
/// with the (N+1)-th claim refused; and the packet claimed for each slot is
/// identical in the two rounds.
pub proof fn lemma_drain_refill(m: RingModel)
    requires
        wf_model(m),
        m.cursor == 0,
        forall|i: int| 0 <= i < m.slots.len() ==> !(#[trigger] m.slots[i]).occupied,
    ensures
        ({
            let n = m.slots.len();
            let full1 = claim_n(m, n);
            let m2 = release_upto(full1, n);
            let full2 = claim_n(m2, n);
            &&& forall|j: nat|
                j < n ==> can_claim(#[trigger] claim_n(m, j)) && claim_index(claim_n(m, j)) == j
            &&& !can_claim(full1)
            &&& forall|j: nat|
                j < n ==> can_claim(#[trigger] claim_n(m2, j)) && claim_index(claim_n(m2, j)) == j
            &&& !can_claim(full2)
            &&& forall|i: int|
                0 <= i < n ==> (#[trigger] full1.slots[i]).packet == full2.slots[i].packet
        }),
{
    let n = m.slots.len();
    let len = n as int;
    lemma_drain(m, n);
    let full1 = claim_n(m, n);
    lemma_release_upto_frees(full1, n);
    let m2 = release_upto(full1, n);
    lemma_mod_self_0(len);
    assert(m2.cursor == 0);
    lemma_drain(m2, n);
    let full2 = claim_n(m2, n);
    assert forall|i: int| 0 <= i < n implies (#[trigger] full1.slots[i]).packet
        == full2.slots[i].packet by {
        assert(full1.slots[i].packet == claim_fill(i, PACKET_LEN as int));
        assert(full2.slots[i].packet == claim_fill(i, PACKET_LEN as int));
    }
}

/// Buffer determinism: the packet produced by claiming slot k is a function
/// of k and the buffer length alone — two claims of the same slot, from any
/// two ring states, write identical bytes.
pub proof fn lemma_buffer_determinism(m1: RingModel, m2: RingModel)
    requires
        wf_model(m1),
        wf_model(m2),
        can_claim(m1),
        can_claim(m2),
        claim_index(m1) == claim_index(m2),
    ensures
        after_claim(m1).slots[claim_index(m1)].packet == after_claim(m2).slots[claim_index(
            m2,
        )].packet,
{
}

} // verus!
