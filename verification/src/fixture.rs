//! What has to stand around a channel before a trial is measured.

use crate::matrix::{Direction, Shape, Trial};
use vstd::prelude::*;

verus! {

/// The preparation of one trial. The driver builds it around a fresh channel
/// before the timing engine takes its first sample, and tears it down before
/// the next trial begins.
#[derive(Clone, Copy, Debug, PartialEq, Eq, Structural)]
pub struct Fixture {
    /// The operation that is timed.
    pub measured: Direction,
    /// Whether every timed operation gets a channel of its own; otherwise all
    /// of them share one channel with the background workers.
    pub channel_per_sample: bool,
    /// How many values the channel holds before a timed operation.
    pub preloaded: usize,
    /// Whether one background worker keeps doing the opposite of the timed
    /// operation, so that the timed one never stalls for good.
    pub counterpart: bool,
    /// How many background workers keep doing the same as the timed
    /// operation, competing with it.
    pub competitors: usize,
}

impl Fixture {
    /// How many background workers keep performing `operation`.
    pub open spec fn workers(self, operation: Direction) -> nat {
        if operation == self.measured {
            self.competitors as nat
        } else if self.counterpart {
            1
        } else {
            0
        }
    }
}

impl Trial {
    /// The fixture of the trial.
    ///
    /// A one-shot trial has no background workers and a channel per sample,
    /// which is empty for a send and holds one value for a receive. A
    /// sustained trial shares one channel, empty at first, between the timed
    /// operation, one worker at the other end of the channel and as many
    /// competing workers as the contention level says.
    pub open spec fn spec_fixture(self) -> Fixture {
        Fixture {
            measured: self.shape.direction(),
            channel_per_sample: self.shape.is_oneshot(),
            preloaded: if self.shape is OneshotRecv {
                1
            } else {
                0
            },
            counterpart: !self.shape.is_oneshot(),
            competitors: if self.shape.is_oneshot() {
                0
            } else {
                self.contention
            },
        }
    }

    /// Plans the fixture of the trial.
    #[verifier::when_used_as_spec(spec_fixture)]
    pub fn fixture(self) -> (fixture: Fixture)
        ensures
            fixture == self.spec_fixture(),
    {
        match self.shape {
            Shape::OneshotSend => Fixture {
                measured: Direction::Send,
                channel_per_sample: true,
                preloaded: 0,
                counterpart: false,
                competitors: 0,
            },
            Shape::OneshotRecv => Fixture {
                measured: Direction::Recv,
                channel_per_sample: true,
                preloaded: 1,
                counterpart: false,
                competitors: 0,
            },
            Shape::SustainedSend => Fixture {
                measured: Direction::Send,
                channel_per_sample: false,
                preloaded: 0,
                counterpart: true,
                competitors: self.contention,
            },
            Shape::SustainedRecv => Fixture {
                measured: Direction::Recv,
                channel_per_sample: false,
                preloaded: 0,
                counterpart: true,
                competitors: self.contention,
            },
        }
    }
}

/// A sustained send is measured beside one draining receiver and as many
/// competing senders as the contention level; a sustained receive beside one
/// filling sender and as many competing receivers; a one-shot trial beside no
/// worker at all, and its channel holds exactly what the timed operation
/// needs.
pub proof fn lemma_fixture_workers(trial: Trial)
    ensures
        trial.shape is SustainedSend ==> trial.fixture().workers(Direction::Recv) == 1
            && trial.fixture().workers(Direction::Send) == trial.contention,
        trial.shape is SustainedRecv ==> trial.fixture().workers(Direction::Send) == 1
            && trial.fixture().workers(Direction::Recv) == trial.contention,
        trial.shape.is_oneshot() ==> trial.fixture().workers(Direction::Send) == 0
            && trial.fixture().workers(Direction::Recv) == 0,
        trial.shape is OneshotSend ==> trial.fixture().preloaded == 0,
        trial.shape is OneshotRecv ==> trial.fixture().preloaded == 1,
{
}

} // verus!
