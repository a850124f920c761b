//! A verified model of the receive path of a kernel-bypass-style packet
//! socket: a fixed-capacity circular ring of pre-allocated buffer slots.
//!
//! Each successful receive claims the slot under the ring's cursor, marks it
//! occupied, refreshes its timestamp, fills its buffer with a deterministic
//! pattern, advances the cursor by one (wrapping), and hands out a
//! [`ring::RecvPacket`] handle. Releasing that handle is the only way the
//! slot returns to the free pool; while the handle is live no further
//! receive can return the same slot.

pub mod laws;
pub mod model;
pub mod ring;
pub mod socket;
