//! Write-once witness slots keyed by block number, and the deadline logic of
//! polling for a slot to be filled.

use vstd::prelude::*;
use std::collections::HashMap;

verus! {

#[derive(Clone, Copy, Debug, PartialEq, Eq, Structural)]
pub enum WitnessError {
    /// The block's slot was written before; a slot is written once.
    AlreadyWritten,
}

pub struct WitnessStore {
    slots: HashMap<u64, Vec<u8>>,
}

impl WitnessStore {
    /// The filled slots: block number to witness payload.
    pub closed spec fn slots_view(&self) -> Map<u64, Seq<u8>> {
        self.slots@.map_values(|v: Vec<u8>| v@)
    }

    pub fn new() -> (r: WitnessStore)
        ensures
            r.slots_view() == Map::<u64, Seq<u8>>::empty(),
    {
        let r = WitnessStore { slots: HashMap::new() };
        assert(r.slots_view() =~= Map::<u64, Seq<u8>>::empty());
        r
    }

    /// Fills the slot of `block` with `payload`. A slot that is already
    /// filled is left as it is and `AlreadyWritten` is returned.
    pub fn put(&mut self, block: u64, payload: Vec<u8>) -> (r: Result<(), WitnessError>)
        ensures
            old(self).slots_view().contains_key(block) ==> r == Err::<(), WitnessError>(WitnessError::AlreadyWritten)
                && final(self).slots_view() == old(self).slots_view(),
            !old(self).slots_view().contains_key(block) ==> r == Ok::<(), WitnessError>(())
                && final(self).slots_view() == old(self).slots_view().insert(block, payload@),
    {
        if self.slots.contains_key(&block) {
            return Err(WitnessError::AlreadyWritten);
        }
        let ghost p = payload@;
        self.slots.insert(block, payload);
        assert(self.slots_view() =~= old(self).slots_view().insert(block, p));
        Ok(())
    }

    /// A copy of the payload of `block`, if its slot is filled. Reading never
    /// changes the store, so concurrent readers see identical data.
    pub fn get(&self, block: u64) -> (r: Option<Vec<u8>>)
        ensures
            self.slots_view().contains_key(block) ==> (r matches Some(p) && p@ == self.slots_view()[block]),
            !self.slots_view().contains_key(block) ==> r.is_none(),
    {
        match self.slots.get(&block) {
            Some(p) => {
                let mut out: Vec<u8> = Vec::new();
                let mut i: usize = 0;
                while i < p.len()
                    invariant
                        0 <= i <= p@.len(),
                        out@ == p@.subrange(0, i as int),
                    decreases p@.len() - i,
                {
                    out.push(p[i]);
                    i = i + 1;
                    assert(out@ =~= p@.subrange(0, i as int));
                }
                assert(out@ =~= p@);
                Some(out)
            },
            None => None,
        }
    }

    /// Releases the slot of `block`. Returns whether a slot was there. Only
    /// the coordinator calls this, once the block is proved.
    pub(crate) fn evict(&mut self, block: u64) -> (r: bool)
        ensures
            r == old(self).slots_view().contains_key(block),
            final(self).slots_view() == old(self).slots_view().remove(block),
    {
        let r = self.slots.remove(&block);
        assert(self.slots_view() =~= old(self).slots_view().remove(block));
        r.is_some()
    }
}

#[derive(Clone, Copy, Debug, PartialEq, Eq, Structural)]
pub enum PollStep {
    /// Send one witness request now.
    Request,
    /// The witness is there: hand it over.
    Ready,
    /// The reply was empty: wait this many time units, then decide again.
    Wait(u64),
    /// The deadline has passed with the slot still empty; send no request.
    TimedOut,
}

/// Time since `started_at`; a clock that reads earlier counts as no time.
pub open spec fn elapsed(started_at: u64, now: u64) -> int {
    if now >= started_at { now - started_at } else { 0 }
}

/// One decision of a witness wait that began at `started_at` and may last
/// `timeout`, polling every `interval`. Before a request (`reply` is `None`)
/// a request is sent only while the deadline has not passed; after one,
/// a filled slot is handed over and an empty one means waiting the fixed
/// interval.
pub open spec fn poll_decision(started_at: u64, now: u64, timeout: u64, interval: u64, reply: Option<bool>) -> PollStep {
    match reply {
        None => if elapsed(started_at, now) < timeout { PollStep::Request } else { PollStep::TimedOut },
        Some(true) => PollStep::Ready,
        Some(false) => PollStep::Wait(interval),
    }
}

pub fn poll_witness(started_at: u64, now: u64, timeout: u64, interval: u64, reply: Option<bool>) -> (r: PollStep)
    ensures
        r == poll_decision(started_at, now, timeout, interval, reply),
{
    match reply {
        Some(true) => PollStep::Ready,
        Some(false) => PollStep::Wait(interval),
        None => {
            let el: u64 = if now >= started_at { now - started_at } else { 0 };
            if el < timeout {
                PollStep::Request
            } else {
                PollStep::TimedOut
            }
        },
    }
}

/// No request is sent, and no timeout reported, on the wrong side of the
/// deadline; a filled slot is handed over at once, whatever the time; and
/// every wait is the one fixed interval.
pub proof fn lemma_poll_deadline(started_at: u64, now: u64, timeout: u64, interval: u64, reply: Option<bool>)
    ensures
        poll_decision(started_at, now, timeout, interval, reply) == PollStep::TimedOut
            ==> elapsed(started_at, now) >= timeout,
        poll_decision(started_at, now, timeout, interval, reply) == PollStep::Request
            ==> elapsed(started_at, now) < timeout,
        reply == Some(true) ==> poll_decision(started_at, now, timeout, interval, reply) == PollStep::Ready,
        poll_decision(started_at, now, timeout, interval, reply) matches PollStep::Wait(d) ==> d == interval,
{
}

/// A wait whose rounds start one fixed interval apart reports its timeout
/// in the round after the last request, no later than one interval past
/// the deadline.
pub proof fn lemma_timeout_window(started_at: u64, prev: u64, now: u64, timeout: u64, interval: u64)
    requires
        started_at <= prev,
        poll_decision(started_at, prev, timeout, interval, None) == PollStep::Request,
        now == prev + interval,
        poll_decision(started_at, now, timeout, interval, None) == PollStep::TimedOut,
    ensures
        timeout <= now - started_at < timeout + interval,
{
}

/// With rounds at `started_at + k * interval`, a request goes out only in
/// rounds with `k * interval < timeout`: at most `ceil(timeout / interval)`
/// requests in all.
pub proof fn lemma_request_rounds(started_at: u64, timeout: u64, interval: u64, k: nat)
    requires
        started_at + k * interval <= u64::MAX,
        poll_decision(started_at, (started_at + k * interval) as u64, timeout, interval, None) == PollStep::Request,
    ensures
        k * interval < timeout,
{
}

} // verus!
