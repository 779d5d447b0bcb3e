//! The coordinator's request surface, composed of the job ledger and the
//! witness store.

use vstd::prelude::*;
use crate::encoder::EncodedProof;
use crate::ledger::{with_status, BlockStatus, JobLedger, LeaseStatus, LedgerError};
use crate::witness::{poll_decision, poll_witness, PollStep, WitnessError, WitnessStore};

verus! {

/// The answer to one witness request.
#[derive(Debug)]
pub enum WitnessReply {
    Payload(Vec<u8>),
    /// Nothing yet: ask again after this many time units.
    Wait(u64),
    /// The deadline passed with the slot still empty.
    Timeout,
}

/// Both parts guard their own state; a witness slot can be released only
/// through `publish`, once its block is proved.
pub struct Coordinator {
    pub ledger: JobLedger,
    pub witnesses: WitnessStore,
}

impl Coordinator {
    /// The filled witness slots.
    pub open spec fn slots_view(&self) -> Map<u64, Seq<u8>> {
        self.witnesses.slots_view()
    }

    pub fn new() -> (r: Coordinator)
        ensures
            r.ledger.wf(),
            r.ledger.blocks_view().len() == 0,
            r.ledger.leases_view().len() == 0,
            r.ledger.workers_view().len() == 0,
            r.ledger.proofs_view().len() == 0,
            r.slots_view() == Map::<u64, Seq<u8>>::empty(),
    {
        Coordinator { ledger: JobLedger::new(), witnesses: WitnessStore::new() }
    }

    /// Fills the witness slot of `block`, once.
    pub fn put_witness(&mut self, block: u64, payload: Vec<u8>) -> (r: Result<(), WitnessError>)
        ensures
            old(self).slots_view().contains_key(block) ==> r == Err::<(), WitnessError>(WitnessError::AlreadyWritten)
                && final(self).slots_view() == old(self).slots_view(),
            !old(self).slots_view().contains_key(block) ==> r == Ok::<(), WitnessError>(())
                && final(self).slots_view() == old(self).slots_view().insert(block, payload@),
            final(self).ledger == old(self).ledger,
    {
        self.witnesses.put(block, payload)
    }

    /// One witness request for `block`, in a wait that began at `started_at`
    /// and may last `timeout`: the payload as soon as the slot is filled;
    /// else a timeout once the deadline has passed, or the fixed interval
    /// to wait before asking again.
    pub fn fetch_witness(&self, block: u64, started_at: u64, now: u64, timeout: u64, interval: u64) -> (r: WitnessReply)
        ensures
            self.slots_view().contains_key(block) ==> (r matches WitnessReply::Payload(p)
                && p@ == self.slots_view()[block]),
            !self.slots_view().contains_key(block)
                && poll_decision(started_at, now, timeout, interval, None) == PollStep::TimedOut
                ==> r matches WitnessReply::Timeout,
            !self.slots_view().contains_key(block)
                && poll_decision(started_at, now, timeout, interval, None) == PollStep::Request
                ==> (r matches WitnessReply::Wait(d) && d == interval),
    {
        match self.witnesses.get(block) {
            Some(p) => WitnessReply::Payload(p),
            None => match poll_witness(started_at, now, timeout, interval, None) {
                PollStep::TimedOut => WitnessReply::Timeout,
                _ => WitnessReply::Wait(interval),
            },
        }
    }

    /// Publishes through the ledger, with the same outcomes (blocks are
    /// proved in rising order); on success the
    /// block's witness slot is released, and on failure nothing changes.
    pub fn publish(&mut self, lease_id: u64, block: u64, proof: EncodedProof) -> (r: Result<(), LedgerError>)
        requires
            old(self).ledger.wf(),
        ensures
            final(self).ledger.wf(),
            old(self).ledger.is_proved(block as int) ==> r == Err::<(), LedgerError>(LedgerError::AlreadyProved),
            !old(self).ledger.is_proved(block as int) && !old(self).ledger.publish_valid(lease_id, block)
                ==> r == Err::<(), LedgerError>(LedgerError::StaleLease),
            !old(self).ledger.is_proved(block as int) && old(self).ledger.publish_valid(lease_id, block)
                && old(self).ledger.proved_above(block as int)
                ==> r == Err::<(), LedgerError>(LedgerError::OutOfOrder),
            !old(self).ledger.is_proved(block as int) && old(self).ledger.publish_valid(lease_id, block)
                && !old(self).ledger.proved_above(block as int) ==> {
                &&& r == Ok::<(), LedgerError>(())
                &&& final(self).ledger.blocks_view() == old(self).ledger.blocks_view().update(
                    block - 1, BlockStatus::Proved)
                &&& final(self).ledger.leases_view() == old(self).ledger.leases_view().update(
                    lease_id - 1, with_status(old(self).ledger.leases_view()[lease_id - 1], LeaseStatus::Completed))
                &&& final(self).ledger.proofs_view() == old(self).ledger.proofs_view().push(
                    EncodedProof { block, elements: proof.elements })
                &&& final(self).ledger.is_proved(block as int)
                &&& final(self).slots_view() == old(self).slots_view().remove(block)
            },
            r.is_ok() ==> forall|n: int| #[trigger] old(self).ledger.is_proved(n) ==> n < block,
            r.is_err() ==> final(self).slots_view() == old(self).slots_view()
                && final(self).ledger.blocks_view() == old(self).ledger.blocks_view()
                && final(self).ledger.leases_view() == old(self).ledger.leases_view()
                && final(self).ledger.proofs_view() == old(self).ledger.proofs_view(),
            final(self).ledger.workers_view() == old(self).ledger.workers_view(),
            old(self).ledger.keeps_proved(&final(self).ledger),
    {
        let r = self.ledger.publish(lease_id, block, proof);
        if r.is_ok() {
            self.witnesses.evict(block);
        }
        r
    }
}

} // verus!
