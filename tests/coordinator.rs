use prover_lease::client::{should_retry, ApiClient, Error, WorkerEvent, WorkerPhase};
use prover_lease::coordinator::{Coordinator, WitnessReply};
use prover_lease::encoder::{encode_proof, FieldElement, FullBabyProof, G1Point, G2Point, RawProof};
use prover_lease::leader::{CheckOutcome, GateAction, LeaderGate, LeaderState};
use prover_lease::ledger::LedgerError;
use prover_lease::witness::{poll_witness, PollStep, WitnessError, WitnessStore};

fn zero_proof() -> RawProof {
    let z = FieldElement { limbs: [0, 0, 0, 0] };
    RawProof {
        a: G1Point { x: z, y: z },
        b: G2Point { x0: z, x1: z, y0: z, y1: z },
        c: G1Point { x: z, y: z },
    }
}

fn full(proof: RawProof) -> FullBabyProof {
    FullBabyProof { proof, inputs: [FieldElement { limbs: [0, 0, 0, 0] }], public_data: vec![0u8; 10] }
}

#[test]
fn witness_slot_is_written_once() {
    let mut s = WitnessStore::new();
    assert_eq!(s.get(1), None);
    assert_eq!(s.put(1, vec![1, 2, 3]), Ok(()));
    assert_eq!(s.put(1, vec![9]), Err(WitnessError::AlreadyWritten));
    assert_eq!(s.get(1), Some(vec![1, 2, 3]));
    assert_eq!(s.get(1), Some(vec![1, 2, 3]));
}

#[test]
fn poll_requests_only_before_deadline() {
    assert_eq!(poll_witness(100, 100, 30, 10, None), PollStep::Request);
    assert_eq!(poll_witness(100, 129, 30, 10, None), PollStep::Request);
    assert_eq!(poll_witness(100, 130, 30, 10, None), PollStep::TimedOut);
    assert_eq!(poll_witness(100, 129, 30, 10, Some(false)), PollStep::Wait(10));
    assert_eq!(poll_witness(100, 500, 30, 10, Some(true)), PollStep::Ready);
    assert_eq!(poll_witness(100, 90, 0, 10, None), PollStep::TimedOut);
}

#[test]
fn virtual_time_wait_sends_ceil_requests_and_times_out_within_interval() {
    let start: u64 = 1000;
    let mut now: u64 = start;
    let mut requests: u32 = 0;
    loop {
        match poll_witness(start, now, 25, 10, None) {
            PollStep::Request => {
                requests += 1;
                match poll_witness(start, now, 25, 10, Some(false)) {
                    PollStep::Wait(d) => now += d,
                    _ => unreachable!(),
                }
            }
            PollStep::TimedOut => break,
            _ => unreachable!(),
        }
    }
    assert_eq!(requests, 3);
    assert_eq!(now, 1030);
}

#[test]
fn coordinator_fetch_and_publish_releases_slot() {
    let mut c = Coordinator::new();
    c.ledger.add_block();
    let w = c.ledger.register("w1").unwrap();
    assert_eq!(c.ledger.lease_next_block(w, 0), Some((1, 1)));
    assert!(matches!(c.fetch_witness(1, 0, 0, 20, 10), WitnessReply::Wait(10)));
    assert!(matches!(c.fetch_witness(1, 0, 19, 20, 10), WitnessReply::Wait(10)));
    assert!(matches!(c.fetch_witness(1, 0, 20, 20, 10), WitnessReply::Timeout));
    assert_eq!(c.put_witness(1, vec![7, 7]), Ok(()));
    assert_eq!(c.put_witness(1, vec![8]), Err(WitnessError::AlreadyWritten));
    match c.fetch_witness(1, 0, 20, 20, 10) {
        WitnessReply::Payload(p) => assert_eq!(p, vec![7, 7]),
        _ => panic!("payload expected"),
    }
    assert_eq!(c.publish(2, 1, encode_proof(&full(zero_proof()), 1)), Err(LedgerError::StaleLease));
    assert_eq!(c.witnesses.get(1), Some(vec![7, 7]));
    assert_eq!(c.publish(1, 1, encode_proof(&full(zero_proof()), 1)), Ok(()));
    assert_eq!(c.witnesses.get(1), None);
    assert_eq!(c.ledger.proofs().len(), 1);
    assert_eq!(c.publish(1, 1, encode_proof(&full(zero_proof()), 1)), Err(LedgerError::AlreadyProved));
}

#[test]
fn leader_gate_without_marker_leads_at_once() {
    let mut g = LeaderGate::new();
    assert_eq!(g.state(), LeaderState::Unconfirmed);
    assert_eq!(g.start(false), GateAction::Proceed);
    assert_eq!(g.state(), LeaderState::Leader);
}

#[test]
fn leader_gate_with_marker_polls_until_confirmed() {
    let mut g = LeaderGate::new();
    assert_eq!(g.start(true), GateAction::RunCheck);
    assert_eq!(g.on_check(CheckOutcome::NotLeader), GateAction::RetryAfterInterval);
    assert_eq!(g.on_check(CheckOutcome::NotLeader), GateAction::RetryAfterInterval);
    assert_eq!(g.state(), LeaderState::Unconfirmed);
    assert_eq!(g.on_check(CheckOutcome::Confirmed), GateAction::Proceed);
    assert_eq!(g.on_check(CheckOutcome::NotLeader), GateAction::Proceed);
    assert_eq!(g.state(), LeaderState::Leader);
}

#[test]
fn leader_gate_aborts_when_check_cannot_run() {
    let mut g = LeaderGate::new();
    g.start(true);
    assert_eq!(g.on_check(CheckOutcome::CouldNotRun), GateAction::Abort);
    assert_eq!(g.state(), LeaderState::Unconfirmed);
}

#[test]
fn client_urls_and_lease() {
    let mut c = ApiClient::new("http://h:8088", "w1");
    assert_eq!(c.register_url(), "http://h:8088/register");
    assert_eq!(c.block_to_prove_url(), "http://h:8088/block_to_prove");
    assert_eq!(c.working_on_url(), "http://h:8088/working_on");
    assert_eq!(c.prover_data_url(), "http://h:8088/prover_data");
    assert_eq!(c.publish_url(), "http://h:8088/publish");
    assert_eq!(c.worker(), "w1");
    assert_eq!(c.accept_lease(5, 0), None);
    assert_eq!(c.accept_lease(5, -3), None);
    assert_eq!(c.phase(), WorkerPhase::Idle);
    assert_eq!(c.current_prover_run_id(), 0);
    assert_eq!(c.accept_lease(5, 3), Some(3));
    assert_eq!(c.current_prover_run_id(), 5);
    assert_eq!(c.current_proving_block(), 3);
    assert_eq!(c.phase(), WorkerPhase::Leased);
}

#[test]
fn client_state_machine_cycle() {
    let mut c = ApiClient::new("u", "w");
    assert_eq!(c.advance(WorkerEvent::Registered), Ok(()));
    assert_eq!(c.phase(), WorkerPhase::Registered);
    assert_eq!(c.advance(WorkerEvent::ProofComputed), Err(Error::Default));
    c.accept_lease(1, 1);
    assert_eq!(c.advance(WorkerEvent::WitnessRequested), Ok(()));
    assert_eq!(c.advance(WorkerEvent::WitnessTimedOut), Err(Error::Timeout));
    assert_eq!(c.phase(), WorkerPhase::Registered);
    c.accept_lease(2, 1);
    c.advance(WorkerEvent::WitnessRequested).unwrap();
    c.advance(WorkerEvent::WitnessReady).unwrap();
    assert_eq!(c.phase(), WorkerPhase::Proving);
    assert_eq!(c.accept_lease(9, 4), None);
    assert_eq!(c.current_prover_run_id(), 2);
    assert_eq!(c.current_proving_block(), 1);
    c.advance(WorkerEvent::ProofComputed).unwrap();
    assert_eq!(c.advance(WorkerEvent::PublishRejected), Err(Error::PublishRejected));
    assert_eq!(c.phase(), WorkerPhase::Idle);
    assert_eq!(Error::Timeout.describe(), "timeout");
    assert_eq!(Error::Default.describe(), "default error");
}

#[test]
fn retries_are_bounded() {
    assert!(should_retry(0, 3));
    assert!(should_retry(3, 3));
    assert!(!should_retry(4, 3));
}

#[test]
fn registration_reply_is_parsed() {
    let mut c = ApiClient::new("u", "w");
    assert_eq!(c.accept_registration("x1"), Err(Error::Default));
    assert_eq!(c.phase(), WorkerPhase::Idle);
    assert_eq!(c.accept_registration("42"), Ok(42));
    assert_eq!(c.phase(), WorkerPhase::Registered);
    assert_eq!(c.accept_registration("-7"), Ok(-7));
    assert_eq!(c.accept_registration("+5"), Ok(5));
    assert_eq!(c.accept_registration(""), Err(Error::Default));
    assert_eq!(c.accept_registration("-"), Err(Error::Default));
    assert_eq!(c.accept_registration("2147483647"), Ok(2147483647));
    assert_eq!(c.accept_registration("2147483648"), Err(Error::Default));
    assert_eq!(c.accept_registration(" 1"), Err(Error::Default));
}
