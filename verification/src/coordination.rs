//! The mutation coordination contract: every accepted mutation must, in
//! order, (1) apply the change to the remote store, (2) append or buffer a
//! transaction record for it, (3) invalidate the cache entries it may have
//! staled. Step 2 runs only after step 1 succeeds; step 3 never runs
//! before step 1 succeeds. If step 1 fails the whole mutation fails and
//! neither later step runs. If step 1 succeeds and step 2 fails, the
//! mutation is reported successful but unaudited: there is no two-phase
//! commit spanning the remote store and the log.
//!
//! A [`MutationCoordinator`] tracks one mutation through these steps; its
//! preconditions are the ordering rules. The caller that drives the
//! remote store and the log file checks each guard before acting.

use vstd::prelude::*;

verus! {

/// Where one mutation stands in the coordination protocol.
#[derive(Debug, Clone, Copy, PartialEq, Eq, Structural)]
pub enum MutationStage {
    /// Accepted; the remote-store apply has not completed.
    Pending,
    /// The remote store applied the change; not yet logged.
    Applied,
    /// Applied and durably logged.
    Logged,
    /// Applied, but the log append failed: successful but unaudited.
    Unaudited,
    /// The remote-store apply failed; nothing was logged or invalidated.
    Failed,
}

/// How one finished mutation is reported to the caller.
#[derive(Debug, Clone, Copy, PartialEq, Eq, Structural)]
pub enum MutationOutcome {
    /// The remote store rejected the change.
    Failed,
    /// The change is applied and its record durable.
    Success,
    /// The change is applied but no record of it could be written.
    SuccessUnaudited,
}

/// Tracks one mutation through apply, log and invalidate.
pub struct MutationCoordinator {
    stage: MutationStage,
}

impl MutationCoordinator {
    /// The current stage.
    pub closed spec fn stage(&self) -> MutationStage {
        self.stage
    }

    /// A mutation that has been accepted and not yet applied.
    pub fn new() -> (r: Self)
        ensures
            r.stage() == MutationStage::Pending,
    {
        MutationCoordinator { stage: MutationStage::Pending }
    }

    /// Records that the remote store applied the change.
    pub fn apply_succeeded(&mut self)
        requires
            old(self).stage() == MutationStage::Pending,
        ensures
            final(self).stage() == MutationStage::Applied,
    {
        self.stage = MutationStage::Applied;
    }

    /// Records that the remote store rejected the change: the mutation is
    /// over, and neither logging nor invalidation may happen.
    pub fn apply_failed(&mut self)
        requires
            old(self).stage() == MutationStage::Pending,
        ensures
            final(self).stage() == MutationStage::Failed,
    {
        self.stage = MutationStage::Failed;
    }

    /// Whether a record may be appended or buffered now: only after the
    /// apply succeeded, and only once.
    pub fn may_log(&self) -> (r: bool)
        ensures
            r == (self.stage() == MutationStage::Applied),
    {
        match self.stage {
            MutationStage::Applied => true,
            _ => false,
        }
    }

    /// Records that the transaction record is durable.
    pub fn log_succeeded(&mut self)
        requires
            old(self).stage() == MutationStage::Applied,
        ensures
            final(self).stage() == MutationStage::Logged,
    {
        self.stage = MutationStage::Logged;
    }

    /// Records that the log append failed: the mutation stands, but
    /// unaudited. The failure is reported, not retried here.
    pub fn log_failed(&mut self)
        requires
            old(self).stage() == MutationStage::Applied,
        ensures
            final(self).stage() == MutationStage::Unaudited,
    {
        self.stage = MutationStage::Unaudited;
    }

    /// Whether the caches may be invalidated now: any time after the
    /// apply succeeded, concurrently with or after logging, never before.
    pub fn may_invalidate(&self) -> (r: bool)
        ensures
            r == (self.stage() == MutationStage::Applied || self.stage() == MutationStage::Logged
                || self.stage() == MutationStage::Unaudited),
    {
        match self.stage {
            MutationStage::Applied => true,
            MutationStage::Logged => true,
            MutationStage::Unaudited => true,
            _ => false,
        }
    }

    /// How the finished mutation is reported: failed, successful, or
    /// successful but unaudited.
    pub fn outcome(&self) -> (r: MutationOutcome)
        requires
            self.stage() == MutationStage::Failed || self.stage() == MutationStage::Logged
                || self.stage() == MutationStage::Unaudited,
        ensures
            r == MutationOutcome::Failed <==> self.stage() == MutationStage::Failed,
            r == MutationOutcome::Success <==> self.stage() == MutationStage::Logged,
            r == MutationOutcome::SuccessUnaudited <==> self.stage() == MutationStage::Unaudited,
    {
        match self.stage {
            MutationStage::Failed => MutationOutcome::Failed,
            MutationStage::Logged => MutationOutcome::Success,
            _ => MutationOutcome::SuccessUnaudited,
        }
    }
}

} // verus!
