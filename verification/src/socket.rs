//! The socket: the public entry point. It owns exactly one ring for its
//! whole lifetime and delegates every receive and release to it.
//!
//! The reference design exposes `recv` on a shared reference and mutates
//! the ring through interior mutability, documenting a single-writer rule
//! as a precondition. Here the same rule is carried by the type system
//! instead: `recv` and `release` take the socket exclusively, so no two
//! calls can overlap. A caller that wants many holders of one socket can
//! put it behind a run-time borrow check.

use crate::model::{
    after_claim, after_release, can_claim, claim_fill, claim_index, fresh_model, wf_model,
    HandleModel, RingModel, PACKET_LEN,
};
use crate::ring::{RecvPacket, Ring};
use vstd::prelude::*;

verus! {

/// A receive socket backed by one fixed-capacity ring.
pub struct Socket {
    inner: Ring,
}

impl View for Socket {
    type V = RingModel;

    closed spec fn view(&self) -> RingModel {
        self.inner@
    }
}

impl Socket {
    /// The socket's internal invariant: its ring is well formed.
    pub open spec fn wf(&self) -> bool {
        wf_model(self@)
    }

    /// Creates a socket whose ring has `capacity` slots, all free, with
    /// the cursor on slot 0.
    pub fn new(capacity: usize) -> (s: Socket)
        requires
            capacity >= 1,
        ensures
            s.wf(),
            s@ == fresh_model(capacity as int),
    {
        Socket { inner: Ring::new(capacity) }
    }

    /// Number of slots in the socket's ring.
    pub fn capacity(&self) -> (r: usize)
        ensures
            r as int == self@.slots.len(),
    {
        self.inner.capacity()
    }

    /// Receives a packet through the socket's ring: claims the slot under
    /// the cursor and returns a handle for it, or returns nothing when
    /// that slot is still occupied.
    pub fn recv(&mut self) -> (r: Option<RecvPacket>)
        requires
            old(self).wf(),
        ensures
            final(self).wf(),
            can_claim(old(self)@) ==> r is Some && r->Some_0@ == (HandleModel {
                idx: claim_index(old(self)@),
                packet: claim_fill(claim_index(old(self)@), PACKET_LEN as int),
                status: true,
            }) && final(self)@ == after_claim(old(self)@),
            !can_claim(old(self)@) ==> r is None && final(self)@ == old(self)@,
    {
        self.inner.recv()
    }

    /// Destroys a handle, releasing its slot back to the free pool.
    pub fn release(&mut self, pkt: RecvPacket)
        requires
            old(self).wf(),
            pkt@.idx < old(self)@.slots.len(),
        ensures
            final(self).wf(),
            final(self)@ == after_release(old(self)@, pkt@.idx),
    {
        self.inner.release(pkt)
    }
}

} // verus!
