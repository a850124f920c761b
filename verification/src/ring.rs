//! The executable ring: slots, the ring itself, and the packet handle that
//! a successful receive returns. Every operation is specified against the
//! abstract state in [`crate::model`].

use crate::model::{
    after_claim, after_release, can_claim, claim_byte, claim_fill, claim_index, fresh_model,
    init_fill, wf_model, HandleModel, RingModel, SlotModel, PACKET_LEN,
};
use vstd::arithmetic::div_mod::lemma_add_mod_noop;
use vstd::prelude::*;

verus! {

/// One ring slot: an occupancy flag, a packet buffer, and the logical time
/// of the slot's most recent claim.
pub struct RingSlot {
    status: bool,
    packet: Vec<u8>,
    timestamp: u64,
}

impl View for RingSlot {
    type V = SlotModel;

    closed spec fn view(&self) -> SlotModel {
        SlotModel { occupied: self.status, packet: self.packet@, timestamp: self.timestamp as nat }
    }
}

/// Handle for one received packet. It identifies the claimed slot and
/// carries the snapshot of occupancy and buffer taken at claim time; the
/// slot's buffer is not rewritten until the slot is claimed again, so the
/// snapshot stays faithful for the handle's whole life. A handle is
/// produced only by a successful receive, cannot be copied, and is consumed
/// by the release that frees its slot.
pub struct RecvPacket {
    idx: usize,
    status: bool,
    packet: Vec<u8>,
}

impl View for RecvPacket {
    type V = HandleModel;

    closed spec fn view(&self) -> HandleModel {
        HandleModel { idx: self.idx as int, packet: self.packet@, status: self.status }
    }
}

impl RecvPacket {
    /// Index of the slot this handle was claimed from.
    pub fn idx(&self) -> (r: usize)
        ensures
            r as int == self@.idx,
    {
        self.idx
    }

    /// Occupancy snapshot taken at claim time (always true for a handle
    /// produced by a successful receive).
    pub fn status(&self) -> (r: bool)
        ensures
            r == self@.status,
    {
        self.status
    }

    /// The packet bytes claimed with this handle.
    pub fn bytes(&self) -> (r: &Vec<u8>)
        ensures
            r@ == self@.packet,
    {
        &self.packet
    }
}

/// Builds the filler pattern a slot holds from construction until its
/// first claim.
fn make_init_packet(k: usize) -> (v: Vec<u8>)
    ensures
        v@ == init_fill(k as int, PACKET_LEN as int),
{
    let b: u8 = (k % 256) as u8;
    let mut v: Vec<u8> = Vec::new();
    let mut j: usize = 0;
    while j < PACKET_LEN
        invariant
            j <= PACKET_LEN,
            v@.len() == j,
            b as int == (k as int) % 256,
            forall|t: int| 0 <= t < j ==> v@[t] == ((k as int) % 256) as u8,
        decreases PACKET_LEN - j,
    {
        v.push(b);
        j += 1;
    }
    proof {
        assert(v@ =~= init_fill(k as int, PACKET_LEN as int));
    }
    v
}

/// Builds the deterministic packet written into slot `k` at claim time.
fn make_claim_packet(k: usize) -> (v: Vec<u8>)
    ensures
        v@ == claim_fill(k as int, PACKET_LEN as int),
{
    let mut v: Vec<u8> = Vec::new();
    let mut j: usize = 0;
    while j < PACKET_LEN
        invariant
            j <= PACKET_LEN,
            v@.len() == j,
            forall|t: int| 0 <= t < j ==> v@[t] == claim_byte(k as int, t),
        decreases PACKET_LEN - j,
    {
        let s: usize = ((k % 256) + (j % 256)) % 256;
        proof {
            lemma_add_mod_noop(k as int, j as int, 256);
        }
        v.push(s as u8);
        j += 1;
    }
    proof {
        assert(v@ =~= claim_fill(k as int, PACKET_LEN as int));
    }
    v
}

/// A fixed-capacity circular ring of packet slots with a wrapping cursor
/// selecting the next candidate slot.
pub struct Ring {
    slots: Vec<RingSlot>,
    next: usize,
    clock: u64,
}

impl View for Ring {
    type V = RingModel;

    closed spec fn view(&self) -> RingModel {
        RingModel {
            slots: Seq::new(self.slots@.len(), |i: int| self.slots@[i]@),
            cursor: self.next as int,
            clock: self.clock as nat,
        }
    }
}

impl Ring {
    /// The ring's internal invariant, stated over its abstract state.
    pub open spec fn wf(&self) -> bool {
        wf_model(self@)
    }

    /// Creates a ring of `capacity` slots, all free, each holding its
    /// filler pattern, with the cursor on slot 0.
    pub fn new(capacity: usize) -> (r: Ring)
        requires
            capacity >= 1,
        ensures
            r.wf(),
            r@ == fresh_model(capacity as int),
    {
        let mut slots: Vec<RingSlot> = Vec::new();
        let mut k: usize = 0;
        while k < capacity
            invariant
                k <= capacity,
                slots@.len() == k,
                forall|i: int|
                    0 <= i < k ==> (#[trigger] slots@[i])@ == (SlotModel {
                        occupied: false,
                        packet: init_fill(i, PACKET_LEN as int),
                        timestamp: 0,
                    }),
            decreases capacity - k,
        {
            let packet = make_init_packet(k);
            slots.push(RingSlot { status: false, packet, timestamp: 0 });
            k += 1;
        }
        let r = Ring { slots, next: 0, clock: 0 };
        proof {
            assert(r@.slots =~= fresh_model(capacity as int).slots);
            assert(r@ =~= fresh_model(capacity as int));
        }
        r
    }

    /// Number of slots in the ring.
    pub fn capacity(&self) -> (r: usize)
        ensures
            r as int == self@.slots.len(),
    {
        self.slots.len()
    }

    /// Index of the next candidate slot.
    pub fn cursor(&self) -> (r: usize)
        ensures
            r as int == self@.cursor,
    {
        self.next
    }

    /// Whether slot `i` is currently occupied, i.e. whether a handle for it
    /// is live.
    pub fn is_occupied(&self, i: usize) -> (r: bool)
        requires
            i < self@.slots.len(),
        ensures
            r == self@.slots[i as int].occupied,
    {
        self.slots[i].status
    }

    /// The bytes currently held by slot `i`'s packet buffer: the filler
    /// pattern before the slot's first claim, and afterwards the fill
    /// written by its most recent claim.
    pub fn packet_at(&self, i: usize) -> (r: &Vec<u8>)
        requires
            i < self@.slots.len(),
        ensures
            r@ == self@.slots[i as int].packet,
    {
        &self.slots[i].packet
    }

    /// Receives a packet. If the slot under the cursor is free, the slot is
    /// claimed: marked occupied, its timestamp refreshed, its buffer
    /// rewritten with the deterministic fill for its index, the cursor
    /// advanced circularly — and a handle for it is returned. If that slot
    /// is still occupied, no slot is available: nothing changes and no
    /// handle is returned.
    pub fn recv(&mut self) -> (r: Option<RecvPacket>)
        requires
            old(self).wf(),
        ensures
            final(self).wf(),
            can_claim(old(self)@) ==> r is Some && r->Some_0@ == (HandleModel {
                idx: claim_index(old(self)@),
                packet: claim_fill(claim_index(old(self)@), PACKET_LEN as int),
                status: true,
            }) && final(self)@ == after_claim(old(self)@),
            !can_claim(old(self)@) ==> r is None && final(self)@ == old(self)@,
    {
        let ghost m0 = self@;
        let idx = self.next;
        if self.slots[idx].status {
            // The candidate slot still has a live handle: report transient
            // unavailability and leave the ring untouched.
            return None;
        }
        let new_clock = if self.clock < u64::MAX {
            self.clock + 1
        } else {
            self.clock
        };
        self.clock = new_clock;
        let cap = self.slots.len();
        let packet = make_claim_packet(idx);
        let slot = &mut self.slots[idx];
        slot.status = true;
        slot.timestamp = new_clock;
        slot.packet = packet;
        self.next = (idx + 1) % cap;
        let handle_packet = make_claim_packet(idx);
        proof {
            assert(self@.slots =~= after_claim(m0).slots);
            assert(self@ =~= after_claim(m0));
        }
        Some(RecvPacket { idx, status: true, packet: handle_packet })
    }

    /// Destroys a handle, releasing its slot: the slot's occupancy flag is
    /// cleared, so the slot becomes eligible for reuse the next time the
    /// cursor reaches it. This is the only path by which a slot returns to
    /// the free pool.
    pub fn release(&mut self, pkt: RecvPacket)
        requires
            old(self).wf(),
            pkt@.idx < old(self)@.slots.len(),
        ensures
            final(self).wf(),
            final(self)@ == after_release(old(self)@, pkt@.idx),
    {
        let ghost m0 = self@;
        let i = pkt.idx;
        let slot = &mut self.slots[i];
        slot.status = false;
        proof {
            assert(self@.slots =~= after_release(m0, pkt@.idx).slots);
            assert(self@ =~= after_release(m0, pkt@.idx));
        }
    }
}

} // verus!
