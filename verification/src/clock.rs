//! The session clock: elapsed recording time with paused spans left out.
use vstd::prelude::*;
use std::time::{Duration, Instant};
use crate::capture::ClockOrigin;

verus! {

#[verifier::external_type_specification]
#[verifier::external_body]
pub struct ExInstant(std::time::Instant);

/// `Instant::now`: a reading of the monotonic clock. Nothing is claimed of
/// its value.
#[verifier::external_body]
fn monotonic_now() -> (t: Instant) {
    Instant::now()
}

/// `Instant::elapsed`: the time since `start`. It depends on when it is
/// called, so nothing is claimed of it.
#[verifier::external_body]
fn elapsed_since(start: &Instant) -> (d: Duration) {
    start.elapsed()
}

/// `Duration::as_micros`: the whole microseconds of `d`. A `Duration` is
/// opaque here, so nothing is claimed of the number.
#[verifier::external_body]
fn whole_micros(d: &Duration) -> (m: u128) {
    d.as_micros()
}

/// Whole microseconds since `start`, capped at `u64::MAX`.
fn micros_since(start: &Instant) -> (m: u64) {
    let m = whole_micros(&elapsed_since(start));
    if m > 18_446_744_073_709_551_615u128 {
        u64::MAX
    } else {
        m as u64
    }
}

/// The paused total at the clock reading `now`: the finished pauses plus
/// the running pause that began at `paused_at` (nothing when the reading is
/// not past it), capped at `u64::MAX`.
pub open spec fn paused_total_at_spec(total: u64, paused_at: u64, now: u64) -> u64 {
    if now > paused_at {
        if total + (now - paused_at) > u64::MAX {
            u64::MAX
        } else {
            (total + (now - paused_at)) as u64
        }
    } else {
        total
    }
}

pub fn paused_total_at(total: u64, paused_at: u64, now: u64) -> (t: u64)
    ensures
        t == paused_total_at_spec(total, paused_at, now),
{
    if now > paused_at {
        let span = now - paused_at;
        if span > u64::MAX - total {
            u64::MAX
        } else {
            total + span
        }
    } else {
        total
    }
}

/// `v` as an `i64`, capped at `i64::MAX`.
pub open spec fn capped_i64(v: u64) -> i64 {
    if v > i64::MAX {
        i64::MAX
    } else {
        v as i64
    }
}

/// A recording's running clock: when it started, where a pause began (in
/// microseconds after the start) and how long earlier pauses lasted.
pub struct RecordingClock {
    origin: ClockOrigin,
    started: Instant,
    paused_at: Option<u64>,
    paused_total: u64,
}

/// `a - b` with a floor of zero, capped at `i64::MAX`.
pub open spec fn running_time(a: u64, b: u64) -> i64 {
    if a <= b {
        0
    } else if a - b > i64::MAX {
        i64::MAX
    } else {
        (a - b) as i64
    }
}

fn running_time_exec(a: u64, b: u64) -> (r: i64)
    ensures
        r == running_time(a, b),
{
    if a <= b {
        0
    } else if a - b > i64::MAX as u64 {
        i64::MAX
    } else {
        (a - b) as i64
    }
}

impl RecordingClock {
    /// Where the current pause began, if the clock is paused.
    pub closed spec fn pause_start(&self) -> Option<u64> {
        self.paused_at
    }

    /// How long the finished pauses lasted, in microseconds.
    pub closed spec fn paused_so_far(&self) -> u64 {
        self.paused_total
    }

    pub closed spec fn origin_spec(&self) -> ClockOrigin {
        self.origin
    }

    /// A clock started now, with the session's clock origin.
    pub fn start(origin: ClockOrigin) -> (c: Self)
        ensures
            c.origin_spec() == origin,
            c.pause_start() is None,
            c.paused_so_far() == 0,
    {
        RecordingClock { origin, started: monotonic_now(), paused_at: None, paused_total: 0 }
    }

    pub fn origin(&self) -> (o: &ClockOrigin)
        ensures
            *o == self.origin_spec(),
    {
        &self.origin
    }

    /// Recording time so far, in microseconds: the time since the start, up
    /// to the current pause if there is one, minus the finished pauses.
    /// While paused it stays where the pause began.
    pub fn elapsed_micros(&self) -> (r: i64)
        ensures
            r >= 0,
            self.pause_start() matches Some(p) ==> r == running_time(p, self.paused_so_far()),
    {
        let end = match self.paused_at {
            Some(p) => p,
            None => micros_since(&self.started),
        };
        running_time_exec(end, self.paused_total)
    }

    /// Starts a pause, unless one is running.
    pub fn pause(&mut self)
        ensures
            final(self).origin_spec() == old(self).origin_spec(),
            final(self).paused_so_far() == old(self).paused_so_far(),
            final(self).pause_start() is Some,
            old(self).pause_start() is Some ==> final(self).pause_start() == old(self).pause_start(),
    {
        if self.paused_at.is_none() {
            self.paused_at = Some(micros_since(&self.started));
        }
    }

    /// Ends the running pause at the clock reading `now` (microseconds after
    /// the start), adding its length to the finished pauses.
    pub fn resume_at(&mut self, now: u64)
        ensures
            final(self).origin_spec() == old(self).origin_spec(),
            final(self).pause_start() is None,
            old(self).pause_start() matches Some(p) ==> final(self).paused_so_far()
                == paused_total_at_spec(old(self).paused_so_far(), p, now),
            old(self).pause_start() is None ==> final(self).paused_so_far() == old(self).paused_so_far(),
    {
        if let Some(p) = self.paused_at {
            self.paused_total = paused_total_at(self.paused_total, p, now);
            self.paused_at = None;
        }
    }

    /// Ends the running pause now, adding its length to the finished pauses
    /// (see `resume_at`; the reading itself is the clock's).
    pub fn resume(&mut self)
        ensures
            final(self).origin_spec() == old(self).origin_spec(),
            final(self).pause_start() is None,
            old(self).pause_start() matches Some(p) ==> exists|now: u64|
                final(self).paused_so_far() == paused_total_at_spec(old(self).paused_so_far(), p, now),
            old(self).pause_start() is None ==> final(self).paused_so_far() == old(self).paused_so_far(),
    {
        let now = micros_since(&self.started);
        self.resume_at(now);
    }

    /// The time spent paused at the clock reading `now`: the finished pauses
    /// and, while paused, the running one, capped at `i64::MAX`.
    pub fn paused_duration_at(&self, now: u64) -> (r: i64)
        ensures
            r == capped_i64(
                match self.pause_start() {
                    Some(p) => paused_total_at_spec(self.paused_so_far(), p, now),
                    None => self.paused_so_far(),
                },
            ),
    {
        let total: u64 = match self.paused_at {
            Some(p) => paused_total_at(self.paused_total, p, now),
            None => self.paused_total,
        };
        if total > i64::MAX as u64 {
            i64::MAX
        } else {
            total as i64
        }
    }

    /// The time spent paused so far (see `paused_duration_at`; the reading
    /// is the clock's).
    pub fn paused_duration_micros(&self) -> (r: i64)
        ensures
            r >= 0,
            self.pause_start() is None ==> r == capped_i64(self.paused_so_far()),
            self.pause_start() matches Some(p) ==> exists|now: u64|
                r == capped_i64(paused_total_at_spec(self.paused_so_far(), p, now)),
    {
        let now = micros_since(&self.started);
        self.paused_duration_at(now)
    }
}

} // verus!
