//! Tests of the slot lifecycle protocol: round-robin claiming, the
//! capacity bound, release-enables-reuse, no double issue, and the
//! drain-release-drain cycle.

use rxring::ring::{RecvPacket, Ring};
use rxring::socket::Socket;

#[test]
fn fresh_ring_state() {
    let ring = Ring::new(5);
    assert_eq!(ring.capacity(), 5);
    assert_eq!(ring.cursor(), 0);
    for i in 0..5 {
        assert!(!ring.is_occupied(i));
        // Filler pattern until the first claim: the slot index repeated.
        assert_eq!(ring.packet_at(i).as_slice(), &[i as u8; 5]);
    }
}

#[test]
fn round_robin_order() {
    let mut sock = Socket::new(5);
    for expected in 0..5 {
        let pkt = sock.recv().expect("a free slot must be claimed");
        assert_eq!(pkt.idx(), expected);
        assert!(pkt.status());
        sock.release(pkt);
    }
    // After one full cycle the cursor is back on slot 0.
    let pkt = sock.recv().expect("a free slot must be claimed");
    assert_eq!(pkt.idx(), 0);
}

#[test]
fn capacity_bound() {
    let mut sock = Socket::new(5);
    let mut held: Vec<RecvPacket> = Vec::new();
    for _ in 0..5 {
        held.push(sock.recv().expect("a free slot must be claimed"));
    }
    // All five slots hold live handles: the sixth receive is refused.
    assert!(sock.recv().is_none());
    for pkt in held.drain(..) {
        sock.release(pkt);
    }
    assert!(sock.recv().is_some());
}

#[test]
fn capacity_one() {
    let mut sock = Socket::new(1);
    assert_eq!(sock.capacity(), 1);
    let pkt = sock.recv().expect("the single slot starts free");
    assert_eq!(pkt.idx(), 0);
    assert!(sock.recv().is_none());
    sock.release(pkt);
    let again = sock.recv().expect("the released slot is free again");
    assert_eq!(again.idx(), 0);
}

#[test]
fn release_enables_reuse_only_at_cursor() {
    let mut sock = Socket::new(3);
    let h0 = sock.recv().expect("slot 0 starts free");
    assert_eq!(h0.idx(), 0);
    sock.release(h0);
    // Slot 0 is free again, but the cursor has moved on: the next claims
    // return slots 1 and 2, and slot 0 only once the cursor wraps back.
    let h1 = sock.recv().expect("slot 1 starts free");
    assert_eq!(h1.idx(), 1);
    let h2 = sock.recv().expect("slot 2 starts free");
    assert_eq!(h2.idx(), 2);
    let h0_again = sock.recv().expect("slot 0 was released");
    assert_eq!(h0_again.idx(), 0);
    // Slots 1 and 2 still hold live handles, so the ring is full again.
    assert!(sock.recv().is_none());
    sock.release(h1);
    sock.release(h2);
    sock.release(h0_again);
}

#[test]
fn no_double_issue_while_handle_live() {
    let mut ring = Ring::new(3);
    let h0 = ring.recv().expect("slot 0 starts free");
    assert_eq!(h0.idx(), 0);
    let h1 = ring.recv().expect("slot 1 starts free");
    let h2 = ring.recv().expect("slot 2 starts free");
    // Free slots 1 and 2; keep the handle for slot 0 alive. The cursor
    // stands on slot 0, which is still occupied, so no receive succeeds —
    // in particular none returns slot 0 a second time.
    ring.release(h1);
    ring.release(h2);
    assert!(ring.is_occupied(0));
    assert!(ring.recv().is_none());
    assert!(ring.recv().is_none());
    // Only destroying the live handle unblocks the ring.
    ring.release(h0);
    let again = ring.recv().expect("slot 0 was released");
    assert_eq!(again.idx(), 0);
}

#[test]
fn drain_release_drain_repeats_exactly() {
    let mut sock = Socket::new(5);
    let mut first: Vec<RecvPacket> = Vec::new();
    while let Some(pkt) = sock.recv() {
        first.push(pkt);
    }
    let first_ids: Vec<usize> = first.iter().map(|p| p.idx()).collect();
    let first_bytes: Vec<Vec<u8>> = first.iter().map(|p| p.bytes().clone()).collect();
    assert_eq!(first_ids, vec![0, 1, 2, 3, 4]);
    // Release in reverse order: the order of releases does not matter.
    while let Some(pkt) = first.pop() {
        sock.release(pkt);
    }
    let mut second: Vec<RecvPacket> = Vec::new();
    while let Some(pkt) = sock.recv() {
        second.push(pkt);
    }
    let second_ids: Vec<usize> = second.iter().map(|p| p.idx()).collect();
    let second_bytes: Vec<Vec<u8>> = second.iter().map(|p| p.bytes().clone()).collect();
    assert_eq!(second_ids, first_ids);
    assert_eq!(second_bytes, first_bytes);
}

#[test]
fn occupancy_follows_claim_and_release() {
    let mut ring = Ring::new(2);
    assert!(!ring.is_occupied(0));
    let pkt = ring.recv().expect("slot 0 starts free");
    assert!(ring.is_occupied(0));
    assert!(!ring.is_occupied(1));
    assert_eq!(ring.cursor(), 1);
    ring.release(pkt);
    assert!(!ring.is_occupied(0));
    // A failed receive does not move the cursor.
    let h1 = ring.recv().expect("slot 1 starts free");
    assert_eq!(ring.cursor(), 0);
    let h0 = ring.recv().expect("slot 0 was released");
    assert_eq!(ring.cursor(), 1);
    assert!(ring.recv().is_none());
    assert_eq!(ring.cursor(), 1);
    ring.release(h0);
    ring.release(h1);
}
