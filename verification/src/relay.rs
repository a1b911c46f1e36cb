//! The bookkeeping of a relay between a client and its backend.
//!
//! Each direction is copied on its own: read a buffer, write all of it to
//! the other side, and so on until the reading side ends or an operation
//! fails. A direction that stops closes the writing half of its target and
//! nothing else, so that the other direction can still deliver what is on
//! its way. The relay is over when both directions have stopped, and its
//! result is the first failure that was reported, if there was one.

use vstd::prelude::*;

verus! {

/// How many bytes a direction reads at a time.
pub const BUFFER_SIZE: usize = 32768;

/// One of the two ways that bytes travel.
#[derive(Clone, Copy, Debug, PartialEq, Eq, Structural)]
pub enum Direction {
    ClientToBackend,
    BackendToClient,
}

/// The operation that failed.
#[derive(Clone, Copy, Debug, PartialEq, Eq, Structural)]
pub enum Failure {
    Read,
    Write,
}

/// A failure and the direction in which it happened.
#[derive(Clone, Copy, Debug, PartialEq, Eq, Structural)]
pub struct RelayError {
    pub direction: Direction,
    pub failure: Failure,
}

/// What a read returned.
#[derive(Clone, Copy, Debug, PartialEq, Eq, Structural)]
pub enum ReadOutcome {
    /// This many bytes are in the buffer.
    Data(usize),
    /// The reading side has ended.
    End,
    /// The read failed.
    Failed,
}

/// What a direction does next.
#[derive(Clone, Copy, Debug, PartialEq, Eq, Structural)]
pub enum CopyStep {
    /// Write the first bytes of the buffer, this many, then read again.
    Write(usize),
    /// Close the writing half of the target; the direction has stopped.
    HalfClose,
}

/// How a direction stopped.
#[derive(Clone, Copy, Debug, PartialEq, Eq, Structural)]
pub enum Stop {
    /// The reading side ended.
    Finished,
    /// An operation failed.
    Failed(Failure),
}

/// Where a relay stands.
#[derive(Clone, Copy, Debug, PartialEq, Eq, Structural)]
pub enum RelayStatus {
    /// A direction is still copying.
    Running,
    /// Both directions have stopped and no operation failed.
    Finished,
    /// Both directions have stopped; this failure was the first.
    Failed(RelayError),
}

/// The two directions of a relay and the first failure among them.
#[derive(Clone, Copy, Debug, PartialEq, Eq, Structural)]
pub struct Relay {
    pub upstream_open: bool,
    pub downstream_open: bool,
    pub first_error: Option<RelayError>,
}

/// What follows a read of `outcome`, with a buffer of `capacity` bytes: a
/// read of nothing is the end of the stream, and so is whatever cannot be.
pub open spec fn step_after_read(outcome: ReadOutcome, capacity: usize) -> CopyStep {
    match outcome {
        ReadOutcome::Data(n) => if 0 < n <= capacity {
            CopyStep::Write(n)
        } else {
            CopyStep::HalfClose
        },
        ReadOutcome::End => CopyStep::HalfClose,
        ReadOutcome::Failed => CopyStep::HalfClose,
    }
}

/// How a direction has stopped when a read of `outcome` stops it.
pub open spec fn stop_after_read(outcome: ReadOutcome) -> Stop {
    match outcome {
        ReadOutcome::Failed => Stop::Failed(Failure::Read),
        _ => Stop::Finished,
    }
}

/// A relay whose two directions are copying.
pub open spec fn fresh() -> Relay {
    Relay { upstream_open: true, downstream_open: true, first_error: None }
}

impl Relay {
    /// Whether the direction `d` is still copying.
    pub open spec fn is_open(self, d: Direction) -> bool {
        match d {
            Direction::ClientToBackend => self.upstream_open,
            Direction::BackendToClient => self.downstream_open,
        }
    }

    /// The relay after the direction `d` has stopped in the way `stop`. A
    /// direction stops once; the first failure stays.
    pub open spec fn stopped(self, d: Direction, stop: Stop) -> Relay {
        if !self.is_open(d) {
            self
        } else {
            Relay {
                upstream_open: self.upstream_open && d != Direction::ClientToBackend,
                downstream_open: self.downstream_open && d != Direction::BackendToClient,
                first_error: match (self.first_error, stop) {
                    (None, Stop::Failed(failure)) => Some(RelayError { direction: d, failure }),
                    _ => self.first_error,
                },
            }
        }
    }

    /// Where the relay stands.
    pub open spec fn status(self) -> RelayStatus {
        if self.upstream_open || self.downstream_open {
            RelayStatus::Running
        } else {
            match self.first_error {
                Some(e) => RelayStatus::Failed(e),
                None => RelayStatus::Finished,
            }
        }
    }

    /// A relay whose two directions are copying.
    pub fn new() -> (r: Relay)
        ensures
            r == fresh(),
    {
        Relay { upstream_open: true, downstream_open: true, first_error: None }
    }

    /// Records that the direction `d` has stopped, and says where the relay
    /// stands now.
    pub fn on_stop(&mut self, d: Direction, stop: Stop) -> (r: RelayStatus)
        ensures
            *final(self) == old(self).stopped(d, stop),
            r == final(self).status(),
    {
        let open = match d {
            Direction::ClientToBackend => self.upstream_open,
            Direction::BackendToClient => self.downstream_open,
        };
        if open {
            match d {
                Direction::ClientToBackend => {
                    self.upstream_open = false;
                },
                Direction::BackendToClient => {
                    self.downstream_open = false;
                },
            }
            if self.first_error.is_none() {
                match stop {
                    Stop::Failed(failure) => {
                        self.first_error = Some(RelayError { direction: d, failure });
                    },
                    Stop::Finished => {},
                }
            }
        }
        self.current()
    }

    /// Where the relay stands.
    pub fn current(&self) -> (r: RelayStatus)
        ensures
            r == self.status(),
    {
        if self.upstream_open || self.downstream_open {
            RelayStatus::Running
        } else {
            match self.first_error {
                Some(e) => RelayStatus::Failed(e),
                None => RelayStatus::Finished,
            }
        }
    }
}

/// Decides what a direction does after a read into a buffer of `capacity`
/// bytes.
pub fn after_read(outcome: ReadOutcome, capacity: usize) -> (r: CopyStep)
    ensures
        r == step_after_read(outcome, capacity),
{
    match outcome {
        ReadOutcome::Data(n) => {
            if 0 < n && n <= capacity {
                CopyStep::Write(n)
            } else {
                CopyStep::HalfClose
            }
        },
        ReadOutcome::End => CopyStep::HalfClose,
        ReadOutcome::Failed => CopyStep::HalfClose,
    }
}

/// How a direction that a read of `outcome` has stopped is reported.
pub fn stop_for_read(outcome: ReadOutcome) -> (r: Stop)
    ensures
        r == stop_after_read(outcome),
{
    match outcome {
        ReadOutcome::Failed => Stop::Failed(Failure::Read),
        _ => Stop::Finished,
    }
}

/// The relay is over exactly when both directions have stopped, in
/// whichever order they do.
pub proof fn lemma_done_when_both_stopped(a: Stop, b: Stop)
    ensures
        fresh().stopped(Direction::ClientToBackend, a).status() == RelayStatus::Running,
        fresh().stopped(Direction::BackendToClient, b).status() == RelayStatus::Running,
        fresh().stopped(Direction::ClientToBackend, a).stopped(
            Direction::BackendToClient,
            b,
        ).status() != RelayStatus::Running,
        fresh().stopped(Direction::BackendToClient, b).stopped(
            Direction::ClientToBackend,
            a,
        ).status() != RelayStatus::Running,
{
}

/// A failure that was recorded is never replaced by a later one, and a
/// direction that has failed does not stop the other.
pub proof fn lemma_first_error_stays(r: Relay, d: Direction, stop: Stop)
    requires
        r.first_error is Some,
    ensures
        r.stopped(d, stop).first_error == r.first_error,
        r.stopped(d, stop).is_open(other(d)) == r.is_open(other(d)),
{
}

/// The direction opposite to `d`.
pub open spec fn other(d: Direction) -> Direction {
    match d {
        Direction::ClientToBackend => Direction::BackendToClient,
        Direction::BackendToClient => Direction::ClientToBackend,
    }
}

} // verus!
