//! Cancellable background jobs: a small state machine plus progress reports.
use vstd::prelude::*;
use crate::ids::{is_v4_uuid, new_id, now_micros};
use crate::text::owned;

verus! {

#[derive(Debug, Clone, Copy, PartialEq, Eq, Structural)]
pub enum JobState {
    Queued,
    Running,
    Succeeded,
    Failed,
    Cancelled,
}

/// No transition leaves a terminal state.
pub open spec fn state_is_terminal(s: JobState) -> bool {
    s is Succeeded || s is Failed || s is Cancelled
}

/// The transitions a job may take: a queued job starts or is cancelled, a
/// running job succeeds, fails or is cancelled.
pub open spec fn legal_transition(from: JobState, to: JobState) -> bool {
    ||| from is Queued && (to is Running || to is Cancelled)
    ||| from is Running && (to is Succeeded || to is Failed || to is Cancelled)
}

impl JobState {
    pub fn is_terminal(self) -> (b: bool)
        ensures
            b == state_is_terminal(self),
    {
        match self {
            JobState::Succeeded | JobState::Failed | JobState::Cancelled => true,
            _ => false,
        }
    }
}

/// A progress report for one job; `updated_at` is microseconds since the Unix
/// epoch.
#[derive(Debug, Clone)]
pub struct JobProgress {
    pub job_id: u128,
    pub state: JobState,
    pub completed: u64,
    pub total: Option<u64>,
    pub message: String,
    pub updated_at: i64,
}

/// A refused transition.
#[derive(Debug, Clone, Copy, PartialEq, Eq, Structural)]
pub struct TransitionError {
    pub from: JobState,
    pub to: JobState,
}

#[derive(Debug, Clone)]
pub struct Job {
    pub id: u128,
    pub state: JobState,
    pub cancel_requested: bool,
}

impl Job {
    /// A queued job with a fresh ID and no cancellation request.
    pub fn new() -> (job: Self)
        ensures
            is_v4_uuid(job.id),
            job.state == JobState::Queued,
            !job.cancel_requested,
    {
        Job { id: new_id(), state: JobState::Queued, cancel_requested: false }
    }

    /// Asks the job to stop; a job that has already finished ignores the
    /// request.
    pub fn request_cancel(&mut self)
        ensures
            final(self).id == old(self).id,
            final(self).state == old(self).state,
            final(self).cancel_requested == (old(self).cancel_requested || !state_is_terminal(
                old(self).state,
            )),
    {
        if !self.state.is_terminal() {
            self.cancel_requested = true;
        }
    }

    /// Moves the job to `to` when the transition is legal; otherwise leaves it
    /// unchanged and reports the refused pair.
    pub fn transition(&mut self, to: JobState) -> (r: Result<(), TransitionError>)
        ensures
            final(self).id == old(self).id,
            final(self).cancel_requested == old(self).cancel_requested,
            r is Ok <==> legal_transition(old(self).state, to),
            r is Ok ==> final(self).state == to,
            r matches Err(e) ==> e == (TransitionError { from: old(self).state, to })
                && final(self).state == old(self).state,
    {
        let legal = match (self.state, to) {
            (JobState::Queued, JobState::Running) => true,
            (JobState::Queued, JobState::Cancelled) => true,
            (JobState::Running, JobState::Succeeded) => true,
            (JobState::Running, JobState::Failed) => true,
            (JobState::Running, JobState::Cancelled) => true,
            _ => false,
        };
        if !legal {
            return Err(TransitionError { from: self.state, to });
        }
        self.state = to;
        Ok(())
    }

    /// A progress report stamped with the current time.
    pub fn progress(&self, completed: u64, total: Option<u64>, message: &str) -> (p: JobProgress)
        ensures
            p.job_id == self.id,
            p.state == self.state,
            p.completed == completed,
            p.total == total,
            p.message@ == message@,
    {
        JobProgress {
            job_id: self.id,
            state: self.state,
            completed,
            total,
            message: owned(message),
            updated_at: now_micros(),
        }
    }
}

/// A terminal state is final: no transition out of it is legal.
pub proof fn lemma_terminal_states_are_final(from: JobState, to: JobState)
    requires
        state_is_terminal(from),
    ensures
        !legal_transition(from, to),
{
}

/// Every legal transition moves forward: the job never returns to `Queued`,
/// and a transition never keeps the state the same.
pub proof fn lemma_transitions_move_forward(from: JobState, to: JobState)
    requires
        legal_transition(from, to),
    ensures
        !(to is Queued),
        from != to,
        !state_is_terminal(from),
{
}

/// A job reaches a terminal state in at most two legal steps, so no run of
/// legal transitions is longer than two.
pub proof fn lemma_at_most_two_steps(a: JobState, b: JobState, c: JobState, d: JobState)
    requires
        legal_transition(a, b),
        legal_transition(b, c),
    ensures
        state_is_terminal(c),
        !legal_transition(c, d),
{
}

} // verus!
