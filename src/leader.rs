//! The startup barrier of a coordinator replica: it proceeds only once the
//! external arbiter confirms that it is the sole leader.

use vstd::prelude::*;

verus! {

#[derive(Clone, Copy, Debug, PartialEq, Eq, Structural)]
pub enum LeaderState {
    Unconfirmed,
    Leader,
}

/// What the arbiter's leadership check came back with.
#[derive(Clone, Copy, Debug, PartialEq, Eq, Structural)]
pub enum CheckOutcome {
    /// The check ran and reported that this replica leads.
    Confirmed,
    /// The check ran and reported that it does not lead (yet).
    NotLeader,
    /// The check itself could not be run.
    CouldNotRun,
}

/// What the caller is to do next.
#[derive(Clone, Copy, Debug, PartialEq, Eq, Structural)]
pub enum GateAction {
    /// Leadership is confirmed: carry on with startup.
    Proceed,
    /// Run the leadership check now.
    RunCheck,
    /// Wait one polling interval, then run the check again.
    RetryAfterInterval,
    /// The check mechanism failed: abort startup.
    Abort,
}

/// The state is private: once `Leader`, it stays `Leader` for as long as
/// the value lives.
pub struct LeaderGate {
    state: LeaderState,
}

impl LeaderGate {
    pub closed spec fn state_view(&self) -> LeaderState {
        self.state
    }

    pub fn state(&self) -> (r: LeaderState)
        ensures
            r == self.state_view(),
    {
        self.state
    }

    pub fn new() -> (r: LeaderGate)
        ensures
            r.state_view() == LeaderState::Unconfirmed,
    {
        LeaderGate { state: LeaderState::Unconfirmed }
    }

    /// Begins startup. A replica that does not run under an orchestrator
    /// leads at once, with no check; one that does must run the check first.
    pub fn start(&mut self, orchestrated: bool) -> (r: GateAction)
        ensures
            old(self).state_view() == LeaderState::Leader ==> r == GateAction::Proceed
                && final(self).state_view() == LeaderState::Leader,
            old(self).state_view() == LeaderState::Unconfirmed && !orchestrated ==> r == GateAction::Proceed
                && final(self).state_view() == LeaderState::Leader,
            old(self).state_view() == LeaderState::Unconfirmed && orchestrated ==> r == GateAction::RunCheck
                && final(self).state_view() == LeaderState::Unconfirmed,
    {
        if self.state == LeaderState::Leader || !orchestrated {
            self.state = LeaderState::Leader;
            GateAction::Proceed
        } else {
            GateAction::RunCheck
        }
    }

    /// Takes the outcome of one leadership check. A negative outcome is no
    /// error, only a reason to check again after the interval; only a check
    /// that could not run aborts. Leadership, once held, is kept.
    pub fn on_check(&mut self, outcome: CheckOutcome) -> (r: GateAction)
        ensures
            old(self).state_view() == LeaderState::Leader ==> r == GateAction::Proceed
                && final(self).state_view() == LeaderState::Leader,
            old(self).state_view() == LeaderState::Unconfirmed ==> match outcome {
                CheckOutcome::Confirmed => r == GateAction::Proceed && final(self).state_view() == LeaderState::Leader,
                CheckOutcome::NotLeader => r == GateAction::RetryAfterInterval
                    && final(self).state_view() == LeaderState::Unconfirmed,
                CheckOutcome::CouldNotRun => r == GateAction::Abort
                    && final(self).state_view() == LeaderState::Unconfirmed,
            },
            r == GateAction::Proceed <==> final(self).state_view() == LeaderState::Leader,
    {
        if self.state == LeaderState::Leader {
            return GateAction::Proceed;
        }
        match outcome {
            CheckOutcome::Confirmed => {
                self.state = LeaderState::Leader;
                GateAction::Proceed
            },
            CheckOutcome::NotLeader => GateAction::RetryAfterInterval,
            CheckOutcome::CouldNotRun => GateAction::Abort,
        }
    }
}

} // verus!
