use prover_lease::encoder::{encode_proof, FieldElement, FullBabyProof, G1Point, G2Point, RawProof};
use prover_lease::ledger::{BlockStatus, JobLedger, LeaseStatus, LedgerError};

fn fe(v: u64) -> FieldElement {
    FieldElement { limbs: [v, 0, 0, 0] }
}

fn sample_proof() -> RawProof {
    RawProof {
        a: G1Point { x: fe(1), y: fe(2) },
        b: G2Point { x0: fe(3), x1: fe(4), y0: fe(5), y1: fe(6) },
        c: G1Point { x: fe(7), y: fe(8) },
    }
}

fn full(proof: RawProof) -> FullBabyProof {
    FullBabyProof { proof, inputs: [FieldElement { limbs: [0, 0, 0, 0] }], public_data: vec![0u8; 10] }
}

#[test]
fn register_then_lease_first_block() {
    let mut l = JobLedger::new();
    assert_eq!(l.add_block(), 1);
    let w1 = l.register("w1").unwrap();
    let w2 = l.register("w2").unwrap();
    assert_eq!(w1, 1);
    assert_eq!(w2, 2);
    assert_eq!(l.lease_next_block(w1, 100), Some((1, 1)));
    assert_eq!(l.lease_next_block(w2, 101), None);
    assert_eq!(l.block_status(1), Some(BlockStatus::Leased));
}

#[test]
fn register_empty_name_is_invalid() {
    let mut l = JobLedger::new();
    assert_eq!(l.register(""), Err(LedgerError::InvalidWorker));
}

#[test]
fn same_name_gets_new_id() {
    let mut l = JobLedger::new();
    assert_eq!(l.register("w"), Ok(1));
    assert_eq!(l.register("w"), Ok(2));
}

#[test]
fn unknown_worker_gets_no_lease() {
    let mut l = JobLedger::new();
    l.add_block();
    assert_eq!(l.lease_next_block(1, 0), None);
    assert_eq!(l.lease_next_block(0, 0), None);
    assert_eq!(l.block_status(1), Some(BlockStatus::Unassigned));
}

#[test]
fn abandoned_lease_expires_and_block_is_leased_again() {
    let mut l = JobLedger::new();
    l.add_block();
    let w1 = l.register("w1").unwrap();
    let w2 = l.register("w2").unwrap();
    assert_eq!(l.lease_next_block(w1, 10), Some((1, 1)));
    l.expire_abandoned(20, 10);
    assert_eq!(l.block_status(1), Some(BlockStatus::Leased));
    l.expire_abandoned(21, 10);
    assert_eq!(l.lease(1).unwrap().status, LeaseStatus::Expired);
    assert_eq!(l.block_status(1), Some(BlockStatus::Unassigned));
    assert_eq!(l.lease_next_block(w2, 22), Some((2, 1)));
    let p = encode_proof(&full(sample_proof()), 1);
    assert_eq!(l.publish(1, 1, p.clone()), Err(LedgerError::StaleLease));
    assert_eq!(l.publish(2, 1, p), Ok(()));
}

#[test]
fn heartbeat_keeps_lease_alive() {
    let mut l = JobLedger::new();
    l.add_block();
    let w = l.register("w").unwrap();
    l.lease_next_block(w, 10);
    assert!(l.heartbeat(1, 30));
    assert_eq!(l.lease(1).unwrap().last_seen, 30);
    l.expire_abandoned(35, 10);
    assert_eq!(l.lease(1).unwrap().status, LeaseStatus::Active);
    assert!(!l.heartbeat(2, 30));
    assert!(!l.heartbeat(0, 30));
}

#[test]
fn publish_marks_proved_and_keeps_proof() {
    let mut l = JobLedger::new();
    l.add_block();
    l.add_block();
    let w = l.register("w").unwrap();
    assert_eq!(l.lease_next_block(w, 0), Some((1, 1)));
    let p = encode_proof(&full(sample_proof()), 99);
    assert_eq!(l.publish(1, 1, p), Ok(()));
    assert_eq!(l.block_status(1), Some(BlockStatus::Proved));
    assert_eq!(l.lease(1).unwrap().status, LeaseStatus::Completed);
    assert_eq!(l.proofs().len(), 1);
    assert_eq!(l.proofs()[0].block, 1);
    assert_eq!(l.proofs()[0].elements[7].limbs[0], 8);
    assert_eq!(l.lease_next_block(w, 1), Some((2, 2)));
}

#[test]
fn publish_on_completed_lease_fails_without_change() {
    let mut l = JobLedger::new();
    l.add_block();
    let w = l.register("w").unwrap();
    l.lease_next_block(w, 0);
    l.publish(1, 1, encode_proof(&full(sample_proof()), 1)).unwrap();
    assert_eq!(l.publish(1, 1, encode_proof(&full(sample_proof()), 1)), Err(LedgerError::AlreadyProved));
    assert_eq!(l.proofs().len(), 1);
    assert_eq!(l.lease(1).unwrap().status, LeaseStatus::Completed);
}

#[test]
fn publish_with_wrong_block_or_unknown_lease_is_stale() {
    let mut l = JobLedger::new();
    l.add_block();
    l.add_block();
    let w = l.register("w").unwrap();
    l.lease_next_block(w, 0);
    assert_eq!(l.publish(1, 2, encode_proof(&full(sample_proof()), 2)), Err(LedgerError::StaleLease));
    assert_eq!(l.publish(7, 1, encode_proof(&full(sample_proof()), 1)), Err(LedgerError::StaleLease));
    assert_eq!(l.block_status(1), Some(BlockStatus::Leased));
    assert_eq!(l.proofs().len(), 0);
}

#[test]
fn no_two_active_leases_on_one_block() {
    let mut l = JobLedger::new();
    l.add_block();
    l.add_block();
    let a = l.register("a").unwrap();
    let b = l.register("b").unwrap();
    let c = l.register("c").unwrap();
    assert_eq!(l.lease_next_block(a, 0), Some((1, 1)));
    assert_eq!(l.lease_next_block(b, 0), Some((2, 2)));
    assert_eq!(l.lease_next_block(c, 0), None);
}

#[test]
fn expired_block_below_proved_is_not_leased() {
    let mut l = JobLedger::new();
    l.add_block();
    l.add_block();
    l.add_block();
    let a = l.register("a").unwrap();
    let b = l.register("b").unwrap();
    assert_eq!(l.lease_next_block(a, 0), Some((1, 1)));
    assert_eq!(l.lease_next_block(b, 50), Some((2, 2)));
    l.publish(2, 2, encode_proof(&full(sample_proof()), 2)).unwrap();
    l.expire_abandoned(40, 10);
    assert_eq!(l.block_status(1), Some(BlockStatus::Unassigned));
    assert_eq!(l.lease_next_block(b, 60), Some((3, 3)));
    assert_eq!(l.lease_next_block(a, 60), None);
}

#[test]
fn encode_order_and_length() {
    let p = sample_proof();
    let e1 = encode_proof(&full(p), 5);
    let e2 = encode_proof(&full(p), 5);
    assert_eq!(e1.block, 5);
    assert_eq!(e1.elements.len(), 8);
    for i in 0..8 {
        assert_eq!(e1.elements[i].limbs, [(i as u64) + 1, 0, 0, 0]);
        assert_eq!(e1.elements[i].limbs, e2.elements[i].limbs);
    }
}

#[test]
fn publish_below_proved_block_is_out_of_order() {
    let mut l = JobLedger::new();
    l.add_block();
    l.add_block();
    let a = l.register("a").unwrap();
    let b = l.register("b").unwrap();
    assert_eq!(l.lease_next_block(a, 0), Some((1, 1)));
    assert_eq!(l.lease_next_block(b, 0), Some((2, 2)));
    assert_eq!(l.publish(2, 2, encode_proof(&full(sample_proof()), 2)), Ok(()));
    assert_eq!(l.publish(1, 1, encode_proof(&full(sample_proof()), 1)), Err(LedgerError::OutOfOrder));
    assert_eq!(l.block_status(1), Some(BlockStatus::Leased));
    assert_eq!(l.lease(1).unwrap().status, LeaseStatus::Active);
    assert_eq!(l.proofs().len(), 1);
}

#[test]
fn publish_in_order_succeeds() {
    let mut l = JobLedger::new();
    l.add_block();
    l.add_block();
    let a = l.register("a").unwrap();
    let b = l.register("b").unwrap();
    l.lease_next_block(a, 0);
    l.lease_next_block(b, 0);
    assert_eq!(l.publish(1, 1, encode_proof(&full(sample_proof()), 1)), Ok(()));
    assert_eq!(l.publish(2, 2, encode_proof(&full(sample_proof()), 2)), Ok(()));
    assert_eq!(l.proofs().len(), 2);
}
