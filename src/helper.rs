//! The decisions of the helper thread that turns blocking acquisitions into
//! callbacks, and of its cooperative shutdown.

use vstd::prelude::*;

verus! {

/// How many short waits a join makes for the helper thread to finish.
pub const JOIN_ATTEMPTS: u32 = 100;

/// Where a helper is in its life: `Running`, then `ProducerDone` (no more
/// requests), then `ConsumerDone` (its thread left its loop), then `Joined`.
#[derive(PartialEq, Eq, Structural, Clone, Copy, Debug)]
pub enum HelperPhase {
    Running,
    ProducerDone,
    ConsumerDone,
    Joined,
}

/// The position of a phase in the helper's life.
pub open spec fn phase_rank(p: HelperPhase) -> nat {
    match p {
        HelperPhase::Running => 0,
        HelperPhase::ProducerDone => 1,
        HelperPhase::ConsumerDone => 2,
        HelperPhase::Joined => 3,
    }
}

/// The state that a helper thread and its owner share.
#[derive(Debug)]
pub struct HelperState {
    phase: HelperPhase,
}

impl HelperState {
    /// The current phase.
    pub closed spec fn phase(&self) -> HelperPhase {
        self.phase
    }

    /// A helper that is running.
    pub fn new() -> (s: HelperState)
        ensures
            s.phase() == HelperPhase::Running,
    {
        HelperState { phase: HelperPhase::Running }
    }

    /// The current phase.
    pub fn current(&self) -> (p: HelperPhase)
        ensures
            p == self.phase(),
    {
        self.phase
    }

    /// Whether the owner has said that no more requests come.
    pub fn producer_done(&self) -> (r: bool)
        ensures
            r == (phase_rank(self.phase()) >= 1),
    {
        self.phase != HelperPhase::Running
    }

    /// Whether the helper thread has left its loop.
    pub fn consumer_done(&self) -> (r: bool)
        ensures
            r == (phase_rank(self.phase()) >= 2),
    {
        self.phase == HelperPhase::ConsumerDone || self.phase == HelperPhase::Joined
    }

    /// The owner issues no more requests.
    pub fn finish_producing(&mut self)
        requires
            old(self).phase() == HelperPhase::Running,
        ensures
            final(self).phase() == HelperPhase::ProducerDone,
            phase_rank(final(self).phase()) == phase_rank(old(self).phase()) + 1,
    {
        self.phase = HelperPhase::ProducerDone;
    }

    /// The helper thread has left its loop.
    pub fn finish_consuming(&mut self)
        requires
            old(self).phase() == HelperPhase::ProducerDone,
        ensures
            final(self).phase() == HelperPhase::ConsumerDone,
            phase_rank(final(self).phase()) == phase_rank(old(self).phase()) + 1,
    {
        self.phase = HelperPhase::ConsumerDone;
    }

    /// The helper thread was joined; nothing follows.
    pub fn mark_joined(&mut self)
        requires
            old(self).phase() == HelperPhase::ConsumerDone,
        ensures
            final(self).phase() == HelperPhase::Joined,
            phase_rank(final(self).phase()) == phase_rank(old(self).phase()) + 1,
    {
        self.phase = HelperPhase::Joined;
    }
}

/// What one blocking acquisition in the helper's loop came to.
#[derive(PartialEq, Eq, Structural, Clone, Copy, Debug)]
pub enum AcquireOutcome {
    /// A token was taken.
    Token,
    /// The wait was interrupted before a token came.
    Interrupted,
    /// The acquisition failed.
    Failed,
}

/// What the helper's loop does next.
#[derive(PartialEq, Eq, Structural, Clone, Copy, Debug)]
pub enum HelperAction {
    /// Hand the token to the callback, then wait for the next request.
    DeliverToken,
    /// Hand the failure to the callback, then wait for the next request.
    DeliverError,
    /// Leave the loop: the owner has finished.
    Stop,
    /// Acquire again.
    Retry,
}

/// The helper loop's decision after one acquisition.
pub fn helper_step(outcome: AcquireOutcome, producer_done: bool) -> (a: HelperAction)
    ensures
        outcome == AcquireOutcome::Token ==> a == HelperAction::DeliverToken,
        outcome == AcquireOutcome::Failed ==> a == HelperAction::DeliverError,
        outcome == AcquireOutcome::Interrupted ==> a == (if producer_done {
            HelperAction::Stop
        } else {
            HelperAction::Retry
        }),
{
    match outcome {
        AcquireOutcome::Token => HelperAction::DeliverToken,
        AcquireOutcome::Failed => HelperAction::DeliverError,
        AcquireOutcome::Interrupted => if producer_done { HelperAction::Stop } else { HelperAction::Retry },
    }
}

/// What a join does next.
#[derive(PartialEq, Eq, Structural, Clone, Copy, Debug)]
pub enum JoinAction {
    /// The thread has finished: join it.
    Join,
    /// Wait a little longer for the thread to finish.
    Wait,
    /// Stop waiting and leave the thread be.
    Abandon,
}

/// The join's decision after `waits` short waits.
pub fn join_step(consumer_done: bool, waits: u32) -> (a: JoinAction)
    ensures
        consumer_done ==> a == JoinAction::Join,
        !consumer_done && waits < JOIN_ATTEMPTS ==> a == JoinAction::Wait,
        !consumer_done && waits >= JOIN_ATTEMPTS ==> a == JoinAction::Abandon,
{
    if consumer_done {
        JoinAction::Join
    } else if waits < JOIN_ATTEMPTS {
        JoinAction::Wait
    } else {
        JoinAction::Abandon
    }
}

} // verus!
