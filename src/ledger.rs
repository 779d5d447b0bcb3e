//! The authoritative record of blocks awaiting proof, registered workers and
//! the leases that bind a worker to one block.
//!
//! Block `n` (numbered from 1, gap-free) is stored at index `n - 1`; lease and
//! worker ids are numbered from 1 the same way and are never reused.

use vstd::prelude::*;
use crate::encoder::EncodedProof;

verus! {

#[derive(Clone, Copy, Debug, PartialEq, Eq, Structural)]
pub enum BlockStatus {
    Unassigned,
    Leased,
    Proved,
}

#[derive(Clone, Copy, Debug, PartialEq, Eq, Structural)]
pub enum LeaseStatus {
    Active,
    Completed,
    Expired,
}

#[derive(Clone, Copy, Debug, PartialEq, Eq, Structural)]
pub enum LedgerError {
    /// Registration with an empty worker name.
    InvalidWorker,
    /// The lease is unknown, no longer active, or held on another block.
    StaleLease,
    /// The block already has an accepted proof.
    AlreadyProved,
    /// A higher block already has an accepted proof: blocks are proved in
    /// rising order.
    OutOfOrder,
}

/// One worker's claim on one block.
#[derive(Clone, Copy, Debug)]
pub struct Lease {
    pub id: u64,
    pub worker: u64,
    pub block: u64,
    pub created_at: u64,
    pub last_seen: u64,
    pub status: LeaseStatus,
}

pub struct JobLedger {
    blocks: Vec<BlockStatus>,
    leases: Vec<Lease>,
    workers: Vec<String>,
    proofs: Vec<EncodedProof>,
}

/// Index `k` holds an unassigned block and no block after it, up to index
/// `end`, is proved.
pub open spec fn eligible_before(s: Seq<BlockStatus>, k: int, end: int) -> bool {
    &&& 0 <= k < s.len()
    &&& s[k] == BlockStatus::Unassigned
    &&& forall|j: int| k < j < end ==> s[j] != BlockStatus::Proved
}

/// Index `k` holds a block that may be leased: it is unassigned, and no
/// higher block is proved.
pub open spec fn eligible(s: Seq<BlockStatus>, k: int) -> bool {
    eligible_before(s, k, s.len() as int)
}

/// Lease index `i` is active and held on block number `block`.
pub open spec fn active_on(ls: Seq<Lease>, i: int, block: int) -> bool {
    &&& 0 <= i < ls.len()
    &&& ls[i].status == LeaseStatus::Active
    &&& ls[i].block == block
}

/// A lease that is active and has not been seen for longer than `window`.
pub open spec fn abandoned(l: Lease, now: u64, window: u64) -> bool {
    l.status == LeaseStatus::Active && now - l.last_seen > window
}

/// Lease `l` with its status replaced by `s`.
pub open spec fn with_status(l: Lease, s: LeaseStatus) -> Lease {
    Lease { id: l.id, worker: l.worker, block: l.block, created_at: l.created_at, last_seen: l.last_seen, status: s }
}

/// The leases `ls` after every abandoned one among them has expired.
pub open spec fn expired_leases(ls: Seq<Lease>, now: u64, window: u64) -> Seq<Lease> {
    Seq::new(ls.len(), |i: int| if abandoned(ls[i], now, window) { with_status(ls[i], LeaseStatus::Expired) } else { ls[i] })
}

/// Among the first `upto` leases, an abandoned one is held on `block`.
pub open spec fn has_abandoned_on(ls: Seq<Lease>, upto: int, block: int, now: u64, window: u64) -> bool {
    exists|j: int| 0 <= j < upto && #[trigger] active_on(ls, j, block) && abandoned(ls[j], now, window)
}

impl JobLedger {
    /// Block statuses; block `n` is at index `n - 1`.
    pub closed spec fn blocks_view(&self) -> Seq<BlockStatus> {
        self.blocks@
    }

    /// Leases; lease id `n` is at index `n - 1`.
    pub closed spec fn leases_view(&self) -> Seq<Lease> {
        self.leases@
    }

    /// Registered worker names; worker id `n` is at index `n - 1`.
    pub closed spec fn workers_view(&self) -> Seq<Seq<char>> {
        self.workers@.map_values(|s: String| s@)
    }

    /// Accepted proofs, in the order of acceptance.
    pub closed spec fn proofs_view(&self) -> Seq<EncodedProof> {
        self.proofs@
    }

    pub open spec fn is_proved(&self, n: int) -> bool {
        1 <= n <= self.blocks_view().len() && self.blocks_view()[n - 1] == BlockStatus::Proved
    }

    pub open spec fn is_registered(&self, worker: u64) -> bool {
        1 <= worker <= self.workers_view().len()
    }

    /// No block that was proved is ever anything else afterwards.
    pub open spec fn keeps_proved(&self, later: &JobLedger) -> bool {
        &&& later.blocks_view().len() >= self.blocks_view().len()
        &&& forall|n: int| #[trigger] self.is_proved(n) ==> later.is_proved(n)
    }

    /// Ids and block references are in range, an active lease holds its
    /// block in the Leased state, a leased block has an active lease, and no
    /// block has two active leases.
    pub closed spec fn wf(&self) -> bool {
        let bs = self.blocks@;
        let ls = self.leases@;
        &&& bs.len() <= u64::MAX
        &&& ls.len() <= u64::MAX
        &&& self.workers@.len() <= u64::MAX
        &&& forall|i: int| 0 <= i < ls.len() ==> #[trigger] ls[i].id == i + 1
        &&& forall|i: int| 0 <= i < ls.len() ==> 1 <= #[trigger] ls[i].block <= bs.len()
        &&& forall|i: int| 0 <= i < ls.len() ==> 1 <= #[trigger] ls[i].worker <= self.workers@.len()
        &&& forall|i: int| 0 <= i < ls.len() && #[trigger] ls[i].status == LeaseStatus::Active
            ==> bs[ls[i].block - 1] == BlockStatus::Leased
        &&& forall|i: int, j: int| #[trigger] active_on(ls, i, ls[j].block as int) && #[trigger] active_on(ls, j, ls[i].block as int) ==> i == j
        &&& forall|k: int| 0 <= k < bs.len() && #[trigger] bs[k] == BlockStatus::Leased
            ==> exists|i: int| #[trigger] active_on(ls, i, k + 1)
    }

    /// The ledger with no block, lease, worker or proof.
    pub fn new() -> (r: JobLedger)
        ensures
            r.wf(),
            r.blocks_view().len() == 0,
            r.leases_view().len() == 0,
            r.workers_view().len() == 0,
            r.proofs_view().len() == 0,
    {
        JobLedger { blocks: Vec::new(), leases: Vec::new(), workers: Vec::new(), proofs: Vec::new() }
    }

    /// Appends the next block, unassigned, and returns its number.
    pub fn add_block(&mut self) -> (n: u64)
        requires
            old(self).wf(),
            old(self).blocks_view().len() < u64::MAX,
        ensures
            final(self).wf(),
            final(self).blocks_view() == old(self).blocks_view().push(BlockStatus::Unassigned),
            n == final(self).blocks_view().len(),
            final(self).leases_view() == old(self).leases_view(),
            final(self).workers_view() == old(self).workers_view(),
            final(self).proofs_view() == old(self).proofs_view(),
            old(self).keeps_proved(&*final(self)),
    {
        self.blocks.push(BlockStatus::Unassigned);
        let n = self.blocks.len() as u64;
        assert forall|k: int| 0 <= k < self.blocks@.len() && #[trigger] self.blocks@[k] == BlockStatus::Leased
            implies exists|i: int| #[trigger] active_on(self.leases@, i, k + 1) by {
            assert(k < old(self).blocks@.len());
            assert(old(self).blocks@[k] == BlockStatus::Leased);
            let i = choose|i: int| #[trigger] active_on(old(self).leases@, i, k + 1);
            assert(active_on(self.leases@, i, k + 1));
        }
        assert forall|n: int| #[trigger] old(self).is_proved(n) implies self.is_proved(n) by {
            assert(self.blocks@[n - 1] == old(self).blocks@[n - 1]);
        }
        n
    }

    /// Registers a worker under `name` and returns its fresh id. Names are not
    /// deduplicated: each registration gives a new id.
    pub fn register(&mut self, name: &str) -> (r: Result<u64, LedgerError>)
        requires
            old(self).wf(),
            old(self).workers_view().len() < u64::MAX,
        ensures
            final(self).wf(),
            name@.len() == 0 ==> r == Err::<u64, LedgerError>(LedgerError::InvalidWorker)
                && final(self).workers_view() == old(self).workers_view(),
            name@.len() > 0 ==> r == Ok::<u64, LedgerError>((old(self).workers_view().len() + 1) as u64)
                && final(self).workers_view() == old(self).workers_view().push(name@),
            final(self).blocks_view() == old(self).blocks_view(),
            final(self).leases_view() == old(self).leases_view(),
            final(self).proofs_view() == old(self).proofs_view(),
            old(self).keeps_proved(&*final(self)),
    {
        if name.is_empty() {
            return Err(LedgerError::InvalidWorker);
        }
        self.workers.push(name.to_owned());
        assert(self.workers_view() =~= old(self).workers_view().push(name@));
        assert forall|i: int| 0 <= i < self.leases@.len() implies 1 <= #[trigger] self.leases@[i].worker <= self.workers@.len() by {
            assert(1 <= old(self).leases@[i].worker <= old(self).workers@.len());
        }
        Ok(self.workers.len() as u64)
    }
    /// Leases the lowest-numbered unassigned block that lies above every
    /// proved block to `worker`, recording `now` as the lease's creation and
    /// last-seen time. `None` when `worker` is not registered or no block is
    /// available; the ledger is then unchanged. Block and lease are updated
    /// together in one step.
    ///
    /// Policy: blocks are leased and proved in rising order. A block below a
    /// proved block is never handed out, and `publish` refuses it
    /// (`OutOfOrder`). So once a higher block is proved, a lower block that
    /// is still leased can no longer be published, and one whose lease
    /// expired is never leased again.
    pub fn lease_next_block(&mut self, worker: u64, now: u64) -> (r: Option<(u64, u64)>)
        requires
            old(self).wf(),
            old(self).leases_view().len() < u64::MAX,
        ensures
            final(self).wf(),
            final(self).workers_view() == old(self).workers_view(),
            final(self).proofs_view() == old(self).proofs_view(),
            old(self).keeps_proved(&*final(self)),
            r.is_none() <==> !old(self).is_registered(worker)
                || forall|k: int| 0 <= k < old(self).blocks_view().len() ==> !#[trigger] eligible(old(self).blocks_view(), k),
            r.is_none() ==> final(self).blocks_view() == old(self).blocks_view()
                && final(self).leases_view() == old(self).leases_view(),
            r matches Some((lease_id, block)) ==> {
                &&& eligible(old(self).blocks_view(), block - 1)
                &&& forall|k: int| 0 <= k < block - 1 ==> !#[trigger] eligible(old(self).blocks_view(), k)
                &&& forall|n: int| #[trigger] old(self).is_proved(n) ==> n < block
                &&& lease_id == old(self).leases_view().len() + 1
                &&& final(self).blocks_view() == old(self).blocks_view().update(block - 1, BlockStatus::Leased)
                &&& final(self).leases_view() == old(self).leases_view().push(
                    Lease { id: lease_id, worker, block, created_at: now, last_seen: now, status: LeaseStatus::Active })
            },
    {
        if worker == 0 || worker > self.workers.len() as u64 {
            assert(old(self).workers_view().len() == self.workers@.len());
            return None;
        }
        let mut cand: Option<usize> = None;
        let mut i: usize = 0;
        while i < self.blocks.len()
            invariant
                0 <= i <= self.blocks@.len(),
                self.blocks@ == old(self).blocks@,
                cand matches Some(c) ==> c < i && eligible_before(self.blocks@, c as int, i as int)
                    && forall|k: int| 0 <= k < c ==> !#[trigger] eligible_before(self.blocks@, k, i as int),
                cand.is_none() ==> forall|k: int| 0 <= k < i ==> !#[trigger] eligible_before(self.blocks@, k, i as int),
            decreases self.blocks@.len() - i,
        {
            let st = self.blocks[i];
            let ghost bs = self.blocks@;
            let ghost prev = cand;
            if st == BlockStatus::Proved {
                cand = None;
            } else if st == BlockStatus::Unassigned && cand.is_none() {
                cand = Some(i);
            }
            assert forall|k: int| 0 <= k < i && !eligible_before(bs, k, i as int)
                implies !#[trigger] eligible_before(bs, k, i + 1) by {
                if eligible_before(bs, k, i + 1) {
                    assert forall|j: int| k < j < i implies bs[j] != BlockStatus::Proved by {
                        assert(k < j < i + 1);
                    }
                }
            }
            if st == BlockStatus::Proved {
                assert forall|k: int| 0 <= k < i + 1 implies !#[trigger] eligible_before(bs, k, i + 1) by {
                    if k < i {
                        assert(k < i < i + 1);
                    }
                }
            }
            if let Some(c) = cand {
                assert(eligible_before(bs, c as int, i + 1));
            }
            i = i + 1;
        }
        assert forall|k: int| 0 <= k < self.blocks@.len() implies
            #[trigger] eligible(old(self).blocks_view(), k) == eligible_before(self.blocks@, k, i as int) by {}
        match cand {
            None => {
                assert forall|k: int| 0 <= k < old(self).blocks_view().len()
                    implies !#[trigger] eligible(old(self).blocks_view(), k) by {
                    assert(!eligible_before(self.blocks@, k, i as int));
                }
                assert(old(self).workers_view().len() == self.workers@.len());
                None
            },
            Some(c) => {
                let block = (c + 1) as u64;
                let lease_id = self.leases.len() as u64 + 1;
                assert(eligible(old(self).blocks_view(), c as int));
                assert(old(self).workers_view().len() == self.workers@.len());
                let ghost ob = self.blocks@;
                let ghost ol = self.leases@;
                self.blocks.set(c, BlockStatus::Leased);
                let lease = Lease { id: lease_id, worker, block, created_at: now, last_seen: now, status: LeaseStatus::Active };
                self.leases.push(lease);
                proof {
                    let bs = self.blocks@;
                    let ls = self.leases@;
                    assert(ls[ol.len() as int] == lease);
                    assert forall|i: int| 0 <= i < ls.len() && #[trigger] ls[i].status == LeaseStatus::Active
                        implies bs[ls[i].block - 1] == BlockStatus::Leased by {
                        if i < ol.len() {
                            assert(ol[i] == ls[i]);
                            assert(ob[ol[i].block - 1] == BlockStatus::Leased);
                        }
                    }
                    assert forall|i: int, j: int| #[trigger] active_on(ls, i, ls[j].block as int)
                        && #[trigger] active_on(ls, j, ls[i].block as int) implies i == j by {
                        if i < ol.len() && j < ol.len() {
                            assert(active_on(ol, i, ol[j].block as int));
                            assert(active_on(ol, j, ol[i].block as int));
                        } else if i < ol.len() {
                            assert(ob[ol[i].block - 1] == BlockStatus::Leased);
                        } else if j < ol.len() {
                            assert(ob[ol[j].block - 1] == BlockStatus::Leased);
                        }
                    }
                    assert forall|k: int| 0 <= k < bs.len() && #[trigger] bs[k] == BlockStatus::Leased
                        implies exists|i: int| #[trigger] active_on(ls, i, k + 1) by {
                        if k == c {
                            assert(active_on(ls, ol.len() as int, k + 1));
                        } else {
                            assert(ob[k] == BlockStatus::Leased);
                            let i = choose|i: int| #[trigger] active_on(ol, i, k + 1);
                            assert(active_on(ls, i, k + 1));
                        }
                    }
                    assert forall|i: int| 0 <= i < ls.len() implies 1 <= #[trigger] ls[i].block <= bs.len() by {
                        if i < ol.len() { assert(ls[i] == ol[i]); }
                    }
                    assert forall|i: int| 0 <= i < ls.len() implies 1 <= #[trigger] ls[i].worker <= self.workers@.len() by {
                        if i < ol.len() { assert(ls[i] == ol[i]); }
                    }
                    assert forall|i: int| 0 <= i < ls.len() implies #[trigger] ls[i].id == i + 1 by {
                        if i < ol.len() { assert(ls[i] == ol[i]); }
                    }
                    assert forall|n: int| #[trigger] old(self).is_proved(n) implies self.is_proved(n) && n < block by {
                        assert(n - 1 != c);
                        if n - 1 < c {
                            assert(c < n - 1 < ob.len() ==> ob[n - 1] != BlockStatus::Proved);
                        }
                    }
                }
                Some((lease_id, block))
            },
        }
    }
    /// Records that the holder of `lease_id` was alive at `now`. Returns
    /// whether the lease exists and is active; only then is it changed.
    pub fn heartbeat(&mut self, lease_id: u64, now: u64) -> (r: bool)
        requires
            old(self).wf(),
        ensures
            final(self).wf(),
            r == (1 <= lease_id <= old(self).leases_view().len()
                && old(self).leases_view()[lease_id - 1].status == LeaseStatus::Active),
            r ==> final(self).leases_view() == old(self).leases_view().update(lease_id - 1, ({
                let l = old(self).leases_view()[lease_id - 1];
                Lease { id: l.id, worker: l.worker, block: l.block, created_at: l.created_at, last_seen: now, status: l.status }
            })),
            !r ==> final(self).leases_view() == old(self).leases_view(),
            final(self).blocks_view() == old(self).blocks_view(),
            final(self).workers_view() == old(self).workers_view(),
            final(self).proofs_view() == old(self).proofs_view(),
            old(self).keeps_proved(&*final(self)),
    {
        if lease_id == 0 || lease_id > self.leases.len() as u64 {
            return false;
        }
        let idx = (lease_id - 1) as usize;
        let mut l = self.leases[idx];
        if l.status != LeaseStatus::Active {
            return false;
        }
        let ghost ol = self.leases@;
        l.last_seen = now;
        self.leases.set(idx, l);
        proof {
            let ls = self.leases@;
            assert forall|i: int| 0 <= i < ls.len() implies #[trigger] ls[i].id == i + 1
                && 1 <= ls[i].block <= self.blocks@.len() && 1 <= ls[i].worker <= self.workers@.len()
                && ls[i].status == ol[i].status && ls[i].block == ol[i].block by {
                assert(ol[i].id == i + 1);
                assert(1 <= ol[i].block <= self.blocks@.len());
                assert(1 <= ol[i].worker <= self.workers@.len());
            }
            assert forall|i: int, b: int| active_on(ls, i, b) == active_on(ol, i, b) by {}
            assert forall|i: int, j: int| #[trigger] active_on(ls, i, ls[j].block as int)
                && #[trigger] active_on(ls, j, ls[i].block as int) implies i == j by {
                assert(active_on(ol, i, ol[j].block as int));
                assert(active_on(ol, j, ol[i].block as int));
            }
            assert forall|k: int| 0 <= k < self.blocks@.len() && #[trigger] self.blocks@[k] == BlockStatus::Leased
                implies exists|i: int| #[trigger] active_on(ls, i, k + 1) by {
                let i = choose|i: int| #[trigger] active_on(ol, i, k + 1);
                assert(active_on(ls, i, k + 1));
            }
            assert forall|n: int| #[trigger] old(self).is_proved(n) implies self.is_proved(n) by {}
        }
        true
    }

    /// Expires every active lease whose holder has not been seen for longer
    /// than `window` before `now`; the block of each reverts to unassigned.
    pub fn expire_abandoned(&mut self, now: u64, window: u64)
        requires
            old(self).wf(),
        ensures
            final(self).wf(),
            final(self).leases_view() == expired_leases(old(self).leases_view(), now, window),
            final(self).blocks_view().len() == old(self).blocks_view().len(),
            forall|k: int| 0 <= k < old(self).blocks_view().len() ==> #[trigger] final(self).blocks_view()[k] == (
                if has_abandoned_on(old(self).leases_view(), old(self).leases_view().len() as int, k + 1, now, window) {
                    BlockStatus::Unassigned
                } else {
                    old(self).blocks_view()[k]
                }),
            final(self).workers_view() == old(self).workers_view(),
            final(self).proofs_view() == old(self).proofs_view(),
            old(self).keeps_proved(&*final(self)),
    {
        let ghost ol = self.leases@;
        let ghost ob = self.blocks@;
        let mut i: usize = 0;
        while i < self.leases.len()
            invariant
                0 <= i <= self.leases@.len(),
                self.wf(),
                self.leases@.len() == ol.len(),
                self.blocks@.len() == ob.len(),
                self.workers == old(self).workers,
                self.proofs == old(self).proofs,
                ol == old(self).leases@,
                ob == old(self).blocks@,
                old(self).wf(),
                forall|j: int| 0 <= j < i ==> #[trigger] self.leases@[j] == expired_leases(ol, now, window)[j],
                forall|j: int| i <= j < ol.len() ==> #[trigger] self.leases@[j] == ol[j],
                forall|k: int| 0 <= k < ob.len() ==> #[trigger] self.blocks@[k] == (
                    if has_abandoned_on(ol, i as int, k + 1, now, window) { BlockStatus::Unassigned } else { ob[k] }),
            decreases ol.len() - i,
        {
            let l = self.leases[i];
            let ghost cl = self.leases@;
            let ghost cb = self.blocks@;
            if l.status == LeaseStatus::Active && now > l.last_seen && now - l.last_seen > window {
                let nb = self.blocks.len();
                assert(1 <= cl[i as int].block <= nb);
                let b = (l.block - 1) as usize;
                let mut e = l;
                e.status = LeaseStatus::Expired;
                self.leases.set(i, e);
                self.blocks.set(b, BlockStatus::Unassigned);
                proof {
                    let ls = self.leases@;
                    let bs = self.blocks@;
                    assert(cl[i as int] == ol[i as int]);
                    assert(l.status == LeaseStatus::Active);
                    assert(l.block == b + 1);
                    assert(0 <= i < ol.len());
                    assert(active_on(ol, i as int, b + 1));
                    assert forall|j: int| 0 <= j < ls.len() implies #[trigger] ls[j].id == j + 1
                        && 1 <= ls[j].block <= bs.len() && 1 <= ls[j].worker <= self.workers@.len()
                        && ls[j].block == cl[j].block by {
                        assert(cl[j].id == j + 1);
                        assert(1 <= cl[j].block <= bs.len());
                        assert(1 <= cl[j].worker <= self.workers@.len());
                    }
                    assert forall|j: int, c: int| #[trigger] active_on(ls, j, c) implies active_on(cl, j, c) && j != i by {}
                    assert forall|j: int| 0 <= j < ls.len() && #[trigger] ls[j].status == LeaseStatus::Active
                        implies bs[ls[j].block - 1] == BlockStatus::Leased by {
                        assert(active_on(cl, j, cl[j].block as int));
                        assert(active_on(cl, i as int, cl[i as int].block as int));
                        if ls[j].block == l.block {
                            assert(active_on(cl, j, cl[i as int].block as int));
                            assert(active_on(cl, i as int, cl[j].block as int));
                        }
                    }
                    assert forall|j: int, m: int| #[trigger] active_on(ls, j, ls[m].block as int)
                        && #[trigger] active_on(ls, m, ls[j].block as int) implies j == m by {
                        assert(active_on(cl, j, cl[m].block as int));
                        assert(active_on(cl, m, cl[j].block as int));
                    }
                    assert forall|k: int| 0 <= k < bs.len() && #[trigger] bs[k] == BlockStatus::Leased
                        implies exists|j: int| #[trigger] active_on(ls, j, k + 1) by {
                        assert(k != b);
                        assert(cb[k] == BlockStatus::Leased);
                        let j = choose|j: int| #[trigger] active_on(cl, j, k + 1);
                        assert(active_on(ls, j, k + 1));
                    }
                    assert forall|k: int| 0 <= k < ob.len() implies #[trigger] bs[k] == (
                        if has_abandoned_on(ol, i + 1, k + 1, now, window) { BlockStatus::Unassigned } else { ob[k] }) by {
                        if k == b {
                            assert(active_on(ol, i as int, k + 1));
                        } else {
                            if has_abandoned_on(ol, i + 1, k + 1, now, window) {
                                let j = choose|j: int| 0 <= j < i + 1 && #[trigger] active_on(ol, j, k + 1) && abandoned(ol[j], now, window);
                                assert(j != i);
                                assert(has_abandoned_on(ol, i as int, k + 1, now, window));
                            }
                        }
                    }
                    assert(ls[i as int] == expired_leases(ol, now, window)[i as int]);
                }
            } else {
                proof {
                    assert(self.leases@[i as int] == expired_leases(ol, now, window)[i as int]);
                    assert forall|k: int| 0 <= k < ob.len() implies #[trigger] self.blocks@[k] == (
                        if has_abandoned_on(ol, i + 1, k + 1, now, window) { BlockStatus::Unassigned } else { ob[k] }) by {
                        if has_abandoned_on(ol, i + 1, k + 1, now, window) {
                            let j = choose|j: int| 0 <= j < i + 1 && #[trigger] active_on(ol, j, k + 1) && abandoned(ol[j], now, window);
                            assert(j != i);
                            assert(has_abandoned_on(ol, i as int, k + 1, now, window));
                        }
                    }
                }
            }
            i = i + 1;
        }
        proof {
            assert(self.leases@ =~= expired_leases(ol, now, window));
            assert forall|n: int| #[trigger] old(self).is_proved(n) implies self.is_proved(n) by {
                if has_abandoned_on(ol, ol.len() as int, n, now, window) {
                    let j = choose|j: int| 0 <= j < ol.len() && #[trigger] active_on(ol, j, n) && abandoned(ol[j], now, window);
                    assert(ob[ol[j].block - 1] == BlockStatus::Leased);
                }
            }
        }
    }
    /// Some block above `block` is proved.
    pub open spec fn proved_above(&self, block: int) -> bool {
        exists|n: int| block < n && #[trigger] self.is_proved(n)
    }

    /// `lease_id` names an active lease held on `block`.
    pub open spec fn publish_valid(&self, lease_id: u64, block: u64) -> bool {
        &&& 1 <= lease_id <= self.leases_view().len()
        &&& self.leases_view()[lease_id - 1].status == LeaseStatus::Active
        &&& self.leases_view()[lease_id - 1].block == block
    }

    /// Accepts `proof` for `block` under `lease_id`: the block becomes
    /// proved, the lease completed, and the proof, stamped with `block`, is
    /// kept for downstream use. A proved block gives `AlreadyProved`; else a
    /// lease that is unknown, not active, or held on another block gives
    /// `StaleLease`; else a proved block above this one gives `OutOfOrder`,
    /// so that blocks are proved in rising order. On any error nothing
    /// changes.
    pub fn publish(&mut self, lease_id: u64, block: u64, proof: EncodedProof) -> (r: Result<(), LedgerError>)
        requires
            old(self).wf(),
        ensures
            final(self).wf(),
            old(self).is_proved(block as int) ==> r == Err::<(), LedgerError>(LedgerError::AlreadyProved),
            !old(self).is_proved(block as int) && !old(self).publish_valid(lease_id, block)
                ==> r == Err::<(), LedgerError>(LedgerError::StaleLease),
            !old(self).is_proved(block as int) && old(self).publish_valid(lease_id, block)
                && old(self).proved_above(block as int)
                ==> r == Err::<(), LedgerError>(LedgerError::OutOfOrder),
            !old(self).is_proved(block as int) && old(self).publish_valid(lease_id, block)
                && !old(self).proved_above(block as int) ==> {
                &&& r == Ok::<(), LedgerError>(())
                &&& final(self).blocks_view() == old(self).blocks_view().update(block - 1, BlockStatus::Proved)
                &&& final(self).leases_view() == old(self).leases_view().update(
                    lease_id - 1, with_status(old(self).leases_view()[lease_id - 1], LeaseStatus::Completed))
                &&& final(self).proofs_view() == old(self).proofs_view().push(
                    EncodedProof { block, elements: proof.elements })
            },
            r.is_ok() ==> final(self).is_proved(block as int),
            r.is_ok() ==> forall|n: int| #[trigger] old(self).is_proved(n) ==> n < block,
            1 <= lease_id <= old(self).leases_view().len()
                && old(self).leases_view()[lease_id - 1].status != LeaseStatus::Active ==> r.is_err(),
            r.is_err() ==> {
                &&& final(self).blocks_view() == old(self).blocks_view()
                &&& final(self).leases_view() == old(self).leases_view()
                &&& final(self).proofs_view() == old(self).proofs_view()
            },
            final(self).workers_view() == old(self).workers_view(),
            old(self).keeps_proved(&*final(self)),
    {
        if block >= 1 && block <= self.blocks.len() as u64 && self.blocks[(block - 1) as usize] == BlockStatus::Proved {
            return Err(LedgerError::AlreadyProved);
        }
        if lease_id == 0 || lease_id > self.leases.len() as u64 {
            return Err(LedgerError::StaleLease);
        }
        let idx = (lease_id - 1) as usize;
        let mut l = self.leases[idx];
        if l.status != LeaseStatus::Active || l.block != block {
            return Err(LedgerError::StaleLease);
        }
        let nb = self.blocks.len();
        assert(1 <= self.leases@[idx as int].block <= nb);
        let mut j: usize = block as usize;
        while j < nb
            invariant
                block <= j <= nb,
                nb == self.blocks@.len(),
                self.blocks@ == old(self).blocks@,
                self.leases@ == old(self).leases@,
                self.workers@ == old(self).workers@,
                self.proofs@ == old(self).proofs@,
                self.wf(),
                !old(self).is_proved(block as int),
                old(self).publish_valid(lease_id, block),
                forall|n: int| block < n <= j ==> !#[trigger] old(self).is_proved(n),
            decreases nb - j,
        {
            if self.blocks[j] == BlockStatus::Proved {
                assert(old(self).is_proved(j + 1));
                return Err(LedgerError::OutOfOrder);
            }
            j = j + 1;
        }
        let ghost ol = self.leases@;
        let ghost ob = self.blocks@;
        let b = (block - 1) as usize;
        l.status = LeaseStatus::Completed;
        self.leases.set(idx, l);
        self.blocks.set(b, BlockStatus::Proved);
        let mut p = proof;
        p.block = block;
        self.proofs.push(p);
        proof {
            let ls = self.leases@;
            let bs = self.blocks@;
            assert(active_on(ol, idx as int, block as int));
            assert(ls[idx as int] == with_status(ol[idx as int], LeaseStatus::Completed));
            assert forall|j: int| 0 <= j < ls.len() implies #[trigger] ls[j].id == j + 1
                && 1 <= ls[j].block <= bs.len() && 1 <= ls[j].worker <= self.workers@.len()
                && ls[j].block == ol[j].block by {
                assert(ol[j].id == j + 1);
                assert(1 <= ol[j].block <= bs.len());
                assert(1 <= ol[j].worker <= self.workers@.len());
            }
            assert forall|j: int, c: int| #[trigger] active_on(ls, j, c) implies active_on(ol, j, c) && j != idx by {}
            assert forall|j: int| 0 <= j < ls.len() && #[trigger] ls[j].status == LeaseStatus::Active
                implies bs[ls[j].block - 1] == BlockStatus::Leased by {
                assert(active_on(ol, j, ol[j].block as int));
                if ls[j].block == block {
                    assert(active_on(ol, j, ol[idx as int].block as int));
                    assert(active_on(ol, idx as int, ol[j].block as int));
                }
            }
            assert forall|j: int, m: int| #[trigger] active_on(ls, j, ls[m].block as int)
                && #[trigger] active_on(ls, m, ls[j].block as int) implies j == m by {
                assert(active_on(ol, j, ol[m].block as int));
                assert(active_on(ol, m, ol[j].block as int));
            }
            assert forall|k: int| 0 <= k < bs.len() && #[trigger] bs[k] == BlockStatus::Leased
                implies exists|j: int| #[trigger] active_on(ls, j, k + 1) by {
                assert(k != b);
                assert(ob[k] == BlockStatus::Leased);
                let j = choose|j: int| #[trigger] active_on(ol, j, k + 1);
                assert(j != idx);
                assert(active_on(ls, j, k + 1));
            }
            assert forall|n: int| #[trigger] old(self).is_proved(n) implies self.is_proved(n) && n < block by {
                if n > block {
                    assert(n <= nb);
                }
            }
        }
        Ok(())
    }

    /// The status of block `n`, if such a block exists.
    pub fn block_status(&self, n: u64) -> (r: Option<BlockStatus>)
        ensures
            1 <= n <= self.blocks_view().len() ==> r == Some(self.blocks_view()[n - 1]),
            !(1 <= n <= self.blocks_view().len()) ==> r.is_none(),
    {
        if n >= 1 && n <= self.blocks.len() as u64 {
            Some(self.blocks[(n - 1) as usize])
        } else {
            None
        }
    }

    /// The lease with id `id`, if it exists.
    pub fn lease(&self, id: u64) -> (r: Option<Lease>)
        ensures
            1 <= id <= self.leases_view().len() ==> r == Some(self.leases_view()[id - 1]),
            !(1 <= id <= self.leases_view().len()) ==> r.is_none(),
    {
        if id >= 1 && id <= self.leases.len() as u64 {
            Some(self.leases[(id - 1) as usize])
        } else {
            None
        }
    }

    /// The number of blocks recorded so far; the highest block number.
    pub fn num_blocks(&self) -> (r: usize)
        ensures
            r == self.blocks_view().len(),
    {
        self.blocks.len()
    }

    /// The accepted proofs, in the order of acceptance.
    pub fn proofs(&self) -> (r: &[EncodedProof])
        ensures
            r@ == self.proofs_view(),
    {
        self.proofs.as_slice()
    }
}

/// In every well-formed ledger, and so in every state that the ledger's
/// operations reach, no block has two active leases.
pub proof fn lemma_single_active_lease(l: &JobLedger, i: int, j: int)
    requires
        l.wf(),
        0 <= i < l.leases_view().len(),
        0 <= j < l.leases_view().len(),
        l.leases_view()[i].status == LeaseStatus::Active,
        l.leases_view()[j].status == LeaseStatus::Active,
        l.leases_view()[i].block == l.leases_view()[j].block,
    ensures
        i == j,
{
    let ls = l.leases@;
    assert(active_on(ls, i, ls[j].block as int));
    assert(active_on(ls, j, ls[i].block as int));
}

/// A block that `lease_next_block` may hand out lies above every proved
/// block, and the ledger's operations never unprove a block: once block `n`
/// is proved, no later lease is for a block below `n`. `publish` keeps the
/// same order: it refuses a block below a proved one.
pub proof fn lemma_lease_above_proved(earlier: &JobLedger, later: &JobLedger, n: int, k: int)
    requires
        earlier.is_proved(n),
        earlier.keeps_proved(later),
        eligible(later.blocks_view(), k),
    ensures
        n < k + 1,
{
    assert(later.is_proved(n));
    if n > k + 1 {
        assert(k < n - 1 < later.blocks_view().len());
    }
}

/// Keeping proved blocks proved carries over a run of operations.
pub proof fn lemma_keeps_proved_transitive(a: &JobLedger, b: &JobLedger, c: &JobLedger)
    requires
        a.keeps_proved(b),
        b.keeps_proved(c),
    ensures
        a.keeps_proved(c),
{
    assert forall|n: int| #[trigger] a.is_proved(n) implies c.is_proved(n) by {
        assert(b.is_proved(n));
    }
}

/// What every well-formed ledger holds of its lease at index `i`: its id is
/// `i + 1`, its block and worker exist, and while it is active its block is
/// leased.
pub proof fn lemma_lease_facts(l: &JobLedger, i: int)
    requires
        l.wf(),
        0 <= i < l.leases_view().len(),
    ensures
        l.leases_view()[i].id == i + 1,
        1 <= l.leases_view()[i].block <= l.blocks_view().len(),
        1 <= l.leases_view()[i].worker <= l.workers_view().len(),
        l.leases_view()[i].status == LeaseStatus::Active
            ==> l.blocks_view()[l.leases_view()[i].block - 1] == BlockStatus::Leased,
{
    let ls = l.leases@;
    assert(ls[i].id == i + 1);
    assert(1 <= ls[i].block <= l.blocks@.len());
    assert(1 <= ls[i].worker <= l.workers@.len());
}

/// In a well-formed ledger every leased block has an active lease on it.
pub proof fn lemma_leased_block_has_lease(l: &JobLedger, n: int)
    requires
        l.wf(),
        1 <= n <= l.blocks_view().len(),
        l.blocks_view()[n - 1] == BlockStatus::Leased,
    ensures
        exists|i: int| 0 <= i < l.leases_view().len() && #[trigger] l.leases_view()[i].block == n
            && l.leases_view()[i].status == LeaseStatus::Active,
{
    let k = n - 1;
    assert(l.blocks@[k] == BlockStatus::Leased);
    let i = choose|i: int| #[trigger] active_on(l.leases@, i, k + 1);
    assert(l.leases_view()[i].block == n);
}

/// Leases rise: when `lease_next_block` handed out block `b1` (the lowest
/// eligible block of `earlier`, then marked leased in `later`), any block
/// `b2` that a following call may hand out, with no block reverting in
/// between, is higher.
pub proof fn lemma_leases_rise(earlier: &JobLedger, later: &JobLedger, b1: int, b2: int)
    requires
        eligible(earlier.blocks_view(), b1 - 1),
        forall|k: int| 0 <= k < b1 - 1 ==> !#[trigger] eligible(earlier.blocks_view(), k),
        later.blocks_view() == earlier.blocks_view().update(b1 - 1, BlockStatus::Leased),
        eligible(later.blocks_view(), b2 - 1),
    ensures
        b1 < b2,
{
    let s0 = earlier.blocks_view();
    let s1 = later.blocks_view();
    if b2 - 1 < b1 - 1 {
        let k = b2 - 1;
        assert(s1[k] == s0[k]);
        assert(!eligible(s0, k));
        assert forall|j: int| k < j < s0.len() implies s0[j] != BlockStatus::Proved by {
            if j == b1 - 1 {
            } else {
                assert(s1[j] == s0[j]);
            }
        }
    }
}

} // verus!
