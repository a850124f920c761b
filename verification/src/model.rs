//! Mathematical model of the ring: the abstract state of a slot, of the
//! whole ring, and of a packet handle, together with the transitions that a
//! claim and a release perform on that state. The executable types in
//! [`crate::ring`] are specified against this model, and the laws in
//! [`crate::laws`] are proved over it.

use vstd::prelude::*;

verus! {

/// Number of bytes in every slot's packet buffer.
pub const PACKET_LEN: usize = 5;

/// Abstract state of one ring slot.
#[verifier::ext_equal]
pub ghost struct SlotModel {
    /// True exactly while a handle for this slot is live.
    pub occupied: bool,
    /// Bytes currently held by the slot's packet buffer.
    pub packet: Seq<u8>,
    /// Logical time of the slot's most recent claim; 0 before any claim.
    pub timestamp: nat,
}

/// Abstract state of the whole ring.
#[verifier::ext_equal]
pub ghost struct RingModel {
    /// The slots, in ring order.
    pub slots: Seq<SlotModel>,
    /// Index of the next candidate slot.
    pub cursor: int,
    /// Logical clock: counts successful claims, saturating at `u64::MAX`.
    pub clock: nat,
}

/// Abstract state of a packet handle: the slot it references and the
/// snapshot of occupancy and buffer taken at claim time.
#[verifier::ext_equal]
pub ghost struct HandleModel {
    pub idx: int,
    pub packet: Seq<u8>,
    pub status: bool,
}

/// Byte `j` of the packet written into slot `k` at claim time.
pub open spec fn claim_byte(k: int, j: int) -> u8 {
    (((k + j) % 256) as u8)
}

/// The packet written into slot `k` at claim time: a deterministic function
/// of the slot index and the buffer length alone.
pub open spec fn claim_fill(k: int, len: int) -> Seq<u8> {
    Seq::new(len as nat, |j: int| claim_byte(k, j))
}

/// The filler pattern slot `k` holds from construction until its first
/// claim: the slot index repeated.
pub open spec fn init_fill(k: int, len: int) -> Seq<u8> {
    Seq::new(len as nat, |j: int| ((k % 256) as u8))
}

/// Well-formedness of a ring state: at least one slot, cursor in range,
/// every buffer of the fixed length, every occupied slot holding exactly
/// its claim-time fill, and no timestamp ahead of the clock.
pub open spec fn wf_model(m: RingModel) -> bool {
    &&& m.slots.len() >= 1
    &&& 0 <= m.cursor < m.slots.len()
    &&& m.clock <= u64::MAX
    &&& forall|i: int|
        0 <= i < m.slots.len() ==> (#[trigger] m.slots[i]).packet.len() == PACKET_LEN
    &&& forall|i: int|
        0 <= i < m.slots.len() && (#[trigger] m.slots[i]).occupied ==> m.slots[i].packet
            == claim_fill(i, PACKET_LEN as int)
    &&& forall|i: int|
        0 <= i < m.slots.len() ==> (#[trigger] m.slots[i]).timestamp <= m.clock
}

/// A claim can go ahead exactly when the slot under the cursor is free.
pub open spec fn can_claim(m: RingModel) -> bool {
    !m.slots[m.cursor].occupied
}

/// The slot index that the next successful claim returns.
pub open spec fn claim_index(m: RingModel) -> int {
    m.cursor
}

/// The logical clock after one more claim.
pub open spec fn tick(c: nat) -> nat {
    if c < u64::MAX {
        (c + 1) as nat
    } else {
        c
    }
}

/// Ring state after a successful claim: the cursor slot becomes occupied
/// with a fresh fill and timestamp, and the cursor advances circularly.
pub open spec fn after_claim(m: RingModel) -> RingModel {
    RingModel {
        slots: m.slots.update(
            m.cursor,
            SlotModel {
                occupied: true,
                packet: claim_fill(m.cursor, PACKET_LEN as int),
                timestamp: tick(m.clock),
            },
        ),
        cursor: (m.cursor + 1) % (m.slots.len() as int),
        clock: tick(m.clock),
    }
}

/// Ring state after the handle for slot `k` is destroyed: that slot's
/// occupancy flag is cleared and nothing else moves.
pub open spec fn after_release(m: RingModel, k: int) -> RingModel {
    RingModel {
        slots: m.slots.update(
            k,
            SlotModel {
                occupied: false,
                packet: m.slots[k].packet,
                timestamp: m.slots[k].timestamp,
            },
        ),
        cursor: m.cursor,
        clock: m.clock,
    }
}

/// Ring state after `n` consecutive successful claims.
pub open spec fn claim_n(m: RingModel, n: nat) -> RingModel
    decreases n,
{
    if n == 0 {
        m
    } else {
        after_claim(claim_n(m, (n - 1) as nat))
    }
}

/// Ring state after releasing the handles for slots `0 .. k`, in order.
pub open spec fn release_upto(m: RingModel, k: nat) -> RingModel
    decreases k,
{
    if k == 0 {
        m
    } else {
        after_release(release_upto(m, (k - 1) as nat), k - 1)
    }
}

/// How many slots are occupied, i.e. how many handles are live.
pub open spec fn occupied_count(s: Seq<SlotModel>) -> nat
    decreases s.len(),
{
    if s.len() == 0 {
        0
    } else {
        occupied_count(s.drop_last()) + if s.last().occupied {
            1nat
        } else {
            0nat
        }
    }
}

/// A freshly constructed ring of `n` slots: every slot free with its filler
/// pattern, cursor at slot 0, clock at 0.
pub open spec fn fresh_model(n: int) -> RingModel {
    RingModel {
        slots: Seq::new(
            n as nat,
            |i: int|
                SlotModel {
                    occupied: false,
                    packet: init_fill(i, PACKET_LEN as int),
                    timestamp: 0,
                },
        ),
        cursor: 0,
        clock: 0,
    }
}

} // verus!
