//! Tests of the packet buffers: the filler pattern at construction and the
//! deterministic fill written at claim time.

use rxring::ring::Ring;

#[test]
fn claim_fill_exact_bytes() {
    let mut ring = Ring::new(5);
    // Byte j of the fill for slot k is (k + j) mod 256.
    let h0 = ring.recv().expect("slot 0 starts free");
    assert_eq!(h0.bytes().as_slice(), &[0, 1, 2, 3, 4]);
    let h1 = ring.recv().expect("slot 1 starts free");
    assert_eq!(h1.bytes().as_slice(), &[1, 2, 3, 4, 5]);
    ring.release(h0);
    ring.release(h1);
}

#[test]
fn claim_rewrites_slot_buffer() {
    let mut ring = Ring::new(2);
    assert_eq!(ring.packet_at(0).as_slice(), &[0; 5]);
    assert_eq!(ring.packet_at(1).as_slice(), &[1; 5]);
    let pkt = ring.recv().expect("slot 0 starts free");
    // The claimed slot now holds its claim-time fill; the other slot still
    // holds its filler pattern.
    assert_eq!(ring.packet_at(0).as_slice(), &[0, 1, 2, 3, 4]);
    assert_eq!(ring.packet_at(1).as_slice(), &[1; 5]);
    // The handle's snapshot matches the slot's buffer.
    assert_eq!(pkt.bytes().as_slice(), ring.packet_at(0).as_slice());
    ring.release(pkt);
}

#[test]
fn buffer_determinism_across_claims() {
    let mut ring = Ring::new(3);
    let first = ring.recv().expect("slot 0 starts free");
    let first_bytes = first.bytes().clone();
    ring.release(first);
    // Walk the cursor around the ring so slot 0 comes up again.
    let h1 = ring.recv().expect("slot 1 starts free");
    let h2 = ring.recv().expect("slot 2 starts free");
    ring.release(h1);
    ring.release(h2);
    let second = ring.recv().expect("slot 0 was released");
    assert_eq!(second.idx(), 0);
    // However often a slot is claimed, its fill is the same.
    assert_eq!(second.bytes(), &first_bytes);
    ring.release(second);
}
