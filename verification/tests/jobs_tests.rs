use kiri::jobs::{Job, JobState, TransitionError};

#[test]
fn accepts_legal_transitions() {
    let mut job = Job::new();
    job.transition(JobState::Running).unwrap();
    job.transition(JobState::Succeeded).unwrap();
    assert!(job.state.is_terminal());
}

#[test]
fn rejects_illegal_transitions() {
    let mut job = Job::new();
    assert_eq!(
        job.transition(JobState::Succeeded).unwrap_err(),
        TransitionError {
            from: JobState::Queued,
            to: JobState::Succeeded
        }
    );
    job.transition(JobState::Cancelled).unwrap();
    assert!(job.transition(JobState::Running).is_err());
}

#[test]
fn cancellation_is_cooperative() {
    let mut job = Job::new();
    job.request_cancel();
    assert!(job.cancel_requested);
    job.transition(JobState::Cancelled).unwrap();
}

#[test]
fn terminal_states_refuse_every_move() {
    for terminal in [JobState::Succeeded, JobState::Failed, JobState::Cancelled] {
        let mut job = Job::new();
        job.transition(JobState::Running).unwrap();
        if terminal != JobState::Cancelled {
            job.transition(terminal).unwrap();
        } else {
            job.transition(JobState::Cancelled).unwrap();
        }
        for next in [
            JobState::Queued,
            JobState::Running,
            JobState::Succeeded,
            JobState::Failed,
            JobState::Cancelled,
        ] {
            let before = job.state;
            assert!(job.transition(next).is_err());
            assert_eq!(job.state, before);
        }
    }
}

#[test]
fn progress_reports_the_job_state() {
    let mut job = Job::new();
    job.transition(JobState::Running).unwrap();
    let p = job.progress(3, Some(10), "encoding");
    assert_eq!(p.job_id, job.id);
    assert_eq!(p.state, JobState::Running);
    assert_eq!(p.completed, 3);
    assert_eq!(p.total, Some(10));
    assert_eq!(p.message, "encoding");
}
