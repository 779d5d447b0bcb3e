//! The worker side of the protocol: the coordinator's endpoint addresses,
//! the worker's one current lease, and the state machine that a worker
//! process drives.

use vstd::prelude::*;
use vstd::string::StringExecFns;

verus! {

#[derive(Clone, Copy, Debug, PartialEq, Eq, Structural)]
pub enum Error {
    /// An event that the worker's current phase does not expect.
    Default,
    /// The witness did not arrive before the deadline.
    Timeout,
    /// The coordinator refused a proof.
    PublishRejected,
}

impl Error {
    pub fn describe(&self) -> (r: &'static str)
        ensures
            *self == Error::Default ==> r@ == "default error"@,
            *self == Error::Timeout ==> r@ == "timeout"@,
            *self == Error::PublishRejected ==> r@ == "proof rejected"@,
    {
        match self {
            Error::Default => "default error",
            Error::Timeout => "timeout",
            Error::PublishRejected => "proof rejected",
        }
    }
}

#[derive(Clone, Copy, Debug, PartialEq, Eq, Structural)]
pub enum WorkerPhase {
    Idle,
    Registered,
    Leased,
    AwaitingWitness,
    Proving,
    Publishing,
}

#[derive(Clone, Copy, Debug, PartialEq, Eq, Structural)]
pub enum WorkerEvent {
    /// Registration succeeded.
    Registered,
    /// The witness was asked for.
    WitnessRequested,
    /// The witness arrived.
    WitnessReady,
    /// The witness wait ran out.
    WitnessTimedOut,
    /// The raw proof was computed.
    ProofComputed,
    /// The coordinator accepted the proof.
    PublishAccepted,
    /// The coordinator refused the proof.
    PublishRejected,
}

/// The phase that `e` leads to from `p`, if `p` expects `e`.
pub open spec fn next_phase(p: WorkerPhase, e: WorkerEvent) -> Option<WorkerPhase> {
    match (p, e) {
        (WorkerPhase::Idle, WorkerEvent::Registered) => Some(WorkerPhase::Registered),
        (WorkerPhase::Leased, WorkerEvent::WitnessRequested) => Some(WorkerPhase::AwaitingWitness),
        (WorkerPhase::AwaitingWitness, WorkerEvent::WitnessReady) => Some(WorkerPhase::Proving),
        (WorkerPhase::AwaitingWitness, WorkerEvent::WitnessTimedOut) => Some(WorkerPhase::Registered),
        (WorkerPhase::Proving, WorkerEvent::ProofComputed) => Some(WorkerPhase::Publishing),
        (WorkerPhase::Publishing, WorkerEvent::PublishAccepted) => Some(WorkerPhase::Idle),
        (WorkerPhase::Publishing, WorkerEvent::PublishRejected) => Some(WorkerPhase::Idle),
        _ => None,
    }
}

/// The error that a transition reports: the timed-out attempt and the
/// refused proof are surfaced to the operator.
pub open spec fn event_error(e: WorkerEvent) -> Option<Error> {
    match e {
        WorkerEvent::WitnessTimedOut => Some(Error::Timeout),
        WorkerEvent::PublishRejected => Some(Error::PublishRejected),
        _ => None,
    }
}

/// The value of a non-empty run of ASCII decimal digits.
pub open spec fn digits_value(s: Seq<char>) -> int
    decreases s.len(),
{
    if s.len() == 0 {
        0
    } else {
        digits_value(s.drop_last()) * 10 + (s.last() as int - '0' as int)
    }
}

pub open spec fn all_digits(s: Seq<char>) -> bool {
    s.len() > 0 && forall|i: int| 0 <= i < s.len() ==> '0' <= #[trigger] s[i] <= '9'
}

/// The integer that `s` writes in decimal, with an optional leading `+` or
/// `-`, if it writes one.
pub open spec fn decimal_value(s: Seq<char>) -> Option<int> {
    if s.len() > 0 && s[0] == '-' && all_digits(s.skip(1)) {
        Some(-digits_value(s.skip(1)))
    } else if s.len() > 0 && s[0] == '+' && all_digits(s.skip(1)) {
        Some(digits_value(s.skip(1)))
    } else if all_digits(s) {
        Some(digits_value(s))
    } else {
        None
    }
}

/// `s` read as an `i32`: its decimal value where that fits.
pub open spec fn parsed_i32(s: Seq<char>) -> Option<i32> {
    match decimal_value(s) {
        Some(v) => if i32::MIN <= v <= i32::MAX { Some(v as i32) } else { None },
        None => None,
    }
}

/// Relies on `i32`'s `FromStr`: an optional `+` or `-` followed by one or
/// more ASCII digits gives their value, unless it overflows; anything else
/// is an error.
#[verifier::external_body]
fn parse_i32(s: &str) -> (r: Option<i32>)
    ensures
        r == parsed_i32(s@),
{
    s.parse::<i32>().ok()
}

#[derive(Debug)]
pub struct ApiClient {
    register_url: String,
    block_to_prove_url: String,
    working_on_url: String,
    prover_data_url: String,
    publish_url: String,
    worker: String,
    current_prover_run_id: i32,
    current_proving_block: i64,
    phase: WorkerPhase,
}

impl ApiClient {
    pub closed spec fn register_url_view(&self) -> Seq<char> {
        self.register_url@
    }

    pub closed spec fn block_to_prove_url_view(&self) -> Seq<char> {
        self.block_to_prove_url@
    }

    pub closed spec fn working_on_url_view(&self) -> Seq<char> {
        self.working_on_url@
    }

    pub closed spec fn prover_data_url_view(&self) -> Seq<char> {
        self.prover_data_url@
    }

    pub closed spec fn publish_url_view(&self) -> Seq<char> {
        self.publish_url@
    }

    pub closed spec fn worker_view(&self) -> Seq<char> {
        self.worker@
    }

    pub closed spec fn run_id_view(&self) -> i32 {
        self.current_prover_run_id
    }

    pub closed spec fn block_view(&self) -> i64 {
        self.current_proving_block
    }

    pub closed spec fn phase_view(&self) -> WorkerPhase {
        self.phase
    }

    /// A client of the coordinator at `base_url` for the worker named
    /// `worker`, idle and holding no lease. The name must not be empty.
    pub fn new(base_url: &str, worker: &str) -> (r: ApiClient)
        requires
            worker@.len() > 0,
        ensures
            r.register_url_view() == base_url@ + "/register"@,
            r.block_to_prove_url_view() == base_url@ + "/block_to_prove"@,
            r.working_on_url_view() == base_url@ + "/working_on"@,
            r.prover_data_url_view() == base_url@ + "/prover_data"@,
            r.publish_url_view() == base_url@ + "/publish"@,
            r.worker_view() == worker@,
            r.run_id_view() == 0,
            r.block_view() == 0,
            r.phase_view() == WorkerPhase::Idle,
    {
        ApiClient {
            register_url: base_url.to_owned().concat("/register"),
            block_to_prove_url: base_url.to_owned().concat("/block_to_prove"),
            working_on_url: base_url.to_owned().concat("/working_on"),
            prover_data_url: base_url.to_owned().concat("/prover_data"),
            publish_url: base_url.to_owned().concat("/publish"),
            worker: worker.to_owned(),
            current_prover_run_id: 0,
            current_proving_block: 0,
            phase: WorkerPhase::Idle,
        }
    }

    pub fn register_url(&self) -> (r: &str)
        ensures
            r@ == self.register_url_view(),
    {
        self.register_url.as_str()
    }

    pub fn block_to_prove_url(&self) -> (r: &str)
        ensures
            r@ == self.block_to_prove_url_view(),
    {
        self.block_to_prove_url.as_str()
    }

    pub fn working_on_url(&self) -> (r: &str)
        ensures
            r@ == self.working_on_url_view(),
    {
        self.working_on_url.as_str()
    }

    pub fn prover_data_url(&self) -> (r: &str)
        ensures
            r@ == self.prover_data_url_view(),
    {
        self.prover_data_url.as_str()
    }

    pub fn publish_url(&self) -> (r: &str)
        ensures
            r@ == self.publish_url_view(),
    {
        self.publish_url.as_str()
    }

    pub fn worker(&self) -> (r: &str)
        ensures
            r@ == self.worker_view(),
    {
        self.worker.as_str()
    }

    pub fn current_prover_run_id(&self) -> (r: i32)
        ensures
            r == self.run_id_view(),
    {
        self.current_prover_run_id
    }

    pub fn current_proving_block(&self) -> (r: i64)
        ensures
            r == self.block_view(),
    {
        self.current_proving_block
    }

    pub fn phase(&self) -> (r: WorkerPhase)
        ensures
            r == self.phase_view(),
    {
        self.phase
    }

    /// Takes the coordinator's reply to a registration: the worker id in
    /// decimal. A reply that is no `i32` gives `Default` and changes nothing;
    /// otherwise the worker, if idle, becomes registered.
    pub fn accept_registration(&mut self, reply: &str) -> (r: Result<i32, Error>)
        ensures
            parsed_i32(reply@) matches Some(id) ==> r == Ok::<i32, Error>(id)
                && final(self).phase_view() == (if old(self).phase_view() == WorkerPhase::Idle {
                    WorkerPhase::Registered
                } else {
                    old(self).phase_view()
                }),
            parsed_i32(reply@).is_none() ==> r == Err::<i32, Error>(Error::Default)
                && final(self).phase_view() == old(self).phase_view(),
            final(self).run_id_view() == old(self).run_id_view(),
            final(self).block_view() == old(self).block_view(),
            final(self).worker_view() == old(self).worker_view(),
            final(self).register_url_view() == old(self).register_url_view(),
            final(self).block_to_prove_url_view() == old(self).block_to_prove_url_view(),
            final(self).working_on_url_view() == old(self).working_on_url_view(),
            final(self).prover_data_url_view() == old(self).prover_data_url_view(),
            final(self).publish_url_view() == old(self).publish_url_view(),
    {
        match parse_i32(reply) {
            Some(id) => {
                if self.phase == WorkerPhase::Idle {
                    self.phase = WorkerPhase::Registered;
                }
                Ok(id)
            },
            None => Err(Error::Default),
        }
    }

    /// Takes the coordinator's answer to a lease request, which a worker
    /// makes only while idle or registered. Block 0 means that no block is
    /// available, and block numbers start at 1, so no block below 1 is a
    /// lease. In that case, or in any other phase, nothing changes and
    /// `None` is returned. Otherwise the block becomes the worker's current
    /// lease, under `prover_run_id`.
    pub fn accept_lease(&mut self, prover_run_id: i32, block: i64) -> (r: Option<i64>)
        ensures
            block <= 0 || !(old(self).phase_view() == WorkerPhase::Idle
                || old(self).phase_view() == WorkerPhase::Registered) ==> r.is_none() && *final(self) == *old(self),
            block > 0 && (old(self).phase_view() == WorkerPhase::Idle
                || old(self).phase_view() == WorkerPhase::Registered) ==> {
                &&& r == Some(block)
                &&& final(self).run_id_view() == prover_run_id
                &&& final(self).block_view() == block
                &&& final(self).phase_view() == WorkerPhase::Leased
            },
            final(self).worker_view() == old(self).worker_view(),
            final(self).register_url_view() == old(self).register_url_view(),
            final(self).block_to_prove_url_view() == old(self).block_to_prove_url_view(),
            final(self).working_on_url_view() == old(self).working_on_url_view(),
            final(self).prover_data_url_view() == old(self).prover_data_url_view(),
            final(self).publish_url_view() == old(self).publish_url_view(),
    {
        if block <= 0 || !(self.phase == WorkerPhase::Idle || self.phase == WorkerPhase::Registered) {
            return None;
        }
        self.current_prover_run_id = prover_run_id;
        self.current_proving_block = block;
        self.phase = WorkerPhase::Leased;
        Some(block)
    }

    /// Moves the worker's state machine on `event`. An event that the
    /// current phase does not expect changes nothing and gives `Default`.
    /// A witness timeout returns the worker to `Registered` to lease anew, a
    /// refused proof returns it to `Idle`; both are reported as errors.
    pub fn advance(&mut self, event: WorkerEvent) -> (r: Result<(), Error>)
        ensures
            next_phase(old(self).phase_view(), event).is_none() ==> r == Err::<(), Error>(Error::Default)
                && final(self).phase_view() == old(self).phase_view(),
            next_phase(old(self).phase_view(), event) matches Some(p) ==> {
                &&& final(self).phase_view() == p
                &&& match event_error(event) {
                    Some(e) => r == Err::<(), Error>(e),
                    None => r == Ok::<(), Error>(()),
                }
            },
            final(self).run_id_view() == old(self).run_id_view(),
            final(self).block_view() == old(self).block_view(),
            final(self).worker_view() == old(self).worker_view(),
            final(self).register_url_view() == old(self).register_url_view(),
            final(self).block_to_prove_url_view() == old(self).block_to_prove_url_view(),
            final(self).working_on_url_view() == old(self).working_on_url_view(),
            final(self).prover_data_url_view() == old(self).prover_data_url_view(),
            final(self).publish_url_view() == old(self).publish_url_view(),
    {
        let next = match (self.phase, event) {
            (WorkerPhase::Idle, WorkerEvent::Registered) => WorkerPhase::Registered,
            (WorkerPhase::Leased, WorkerEvent::WitnessRequested) => WorkerPhase::AwaitingWitness,
            (WorkerPhase::AwaitingWitness, WorkerEvent::WitnessReady) => WorkerPhase::Proving,
            (WorkerPhase::AwaitingWitness, WorkerEvent::WitnessTimedOut) => WorkerPhase::Registered,
            (WorkerPhase::Proving, WorkerEvent::ProofComputed) => WorkerPhase::Publishing,
            (WorkerPhase::Publishing, WorkerEvent::PublishAccepted) => WorkerPhase::Idle,
            (WorkerPhase::Publishing, WorkerEvent::PublishRejected) => WorkerPhase::Idle,
            _ => {
                return Err(Error::Default);
            },
        };
        self.phase = next;
        match event {
            WorkerEvent::WitnessTimedOut => Err(Error::Timeout),
            WorkerEvent::PublishRejected => Err(Error::PublishRejected),
            _ => Ok(()),
        }
    }
}

/// Whether a request that has failed `failures` times in a row is tried
/// again, under an operator-set bound of `max_retries` retries.
pub fn should_retry(failures: u32, max_retries: u32) -> (r: bool)
    ensures
        r == (failures <= max_retries),
{
    failures <= max_retries
}

} // verus!
