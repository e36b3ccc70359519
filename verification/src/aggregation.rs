//! The walk through the matrix that gathers one cell per trial.
//!
//! The walk itself touches no file. It says which trial is due; whoever
//! drives it reads that trial's samples, reduces them to a cell, and hands
//! the cell in, or the failure. The first failure ends the walk, and a walk
//! that has failed or has not reached its end yields no tree.

use crate::error::{ErrorText, PipelineError};
use crate::matrix::{pipeline_trial, trial_at, walk_trial, Trial, TRIALS};
use crate::number::{all_numbers, is_number, is_numeric};
use crate::results::Results;
use crate::text::texts;
use vstd::prelude::*;

verus! {

/// The state of one walk: the cells gathered so far, and the failure that
/// ended it, if one did.
pub struct Aggregation {
    cells: Vec<String>,
    failure: Option<PipelineError>,
}

impl Aggregation {
    #[verifier::type_invariant]
    spec fn well_formed(&self) -> bool {
        &&& self.cells@.len() <= TRIALS
        &&& all_numbers(texts(self.cells@))
    }

    /// The cells gathered so far, in the order of the walk.
    pub closed spec fn gathered(&self) -> Seq<Seq<char>> {
        texts(self.cells@)
    }

    /// The failure that ended the walk, if one did.
    pub closed spec fn failure(&self) -> Option<ErrorText> {
        match self.failure {
            Some(error) => Some(error@),
            None => None,
        }
    }

    /// The trial that is due: the one after the trials whose cells are
    /// gathered, unless the walk has failed or is at its end.
    pub open spec fn due(&self) -> Option<Trial> {
        if self.failure() is None && self.gathered().len() < TRIALS {
            Some(pipeline_trial(self.gathered().len() as int))
        } else {
            None
        }
    }

    /// Begins a walk: nothing gathered, nothing failed, the first trial due.
    pub fn new() -> (walk: Aggregation)
        ensures
            walk.gathered() == Seq::<Seq<char>>::empty(),
            walk.failure() is None,
    {
        let walk = Aggregation { cells: Vec::new(), failure: None };
        assert(walk.gathered() =~= Seq::<Seq<char>>::empty());
        walk
    }

    /// The trial whose outcome the walk waits for, if it waits for one.
    pub fn next(&self) -> (trial: Option<Trial>)
        ensures
            trial == self.due(),
    {
        proof {
            use_type_invariant(self);
        }
        if self.failure.is_some() {
            None
        } else {
            trial_at(self.cells.len())
        }
    }

    /// Takes the outcome of the trial that is due and gives the walk after
    /// it: with the trial's cell, a number, the walk has moved on by one
    /// trial; with a cell that is no number, or with the trial's failure, the
    /// walk has ended. Where no trial is due the outcome is dropped and the
    /// walk stays as it is.
    pub fn record(self, outcome: Result<String, PipelineError>) -> (walk: Aggregation)
        ensures
            all_numbers(walk.gathered()),
            self.due() is None ==> walk.gathered() == self.gathered() && walk.failure()
                == self.failure(),
            self.due() matches Some(trial) ==> (match outcome {
                Ok(cell) => if is_number(cell@) {
                    walk.gathered() == self.gathered().push(cell@) && walk.failure() is None
                } else {
                    walk.gathered() == self.gathered() && walk.failure() == Some(
                        ErrorText::NotANumber { trial, text: cell@ },
                    )
                },
                Err(error) => walk.gathered() == self.gathered() && walk.failure() == Some(
                    error@,
                ),
            }),
    {
        proof {
            use_type_invariant(&self);
        }
        if self.failure.is_some() || self.cells.len() >= TRIALS {
            return self;
        }
        let Aggregation { mut cells, failure } = self;
        match outcome {
            Ok(cell) => {
                if !is_numeric(cell.as_str()) {
                    let trial = walk_trial(cells.len());
                    return Aggregation {
                        cells,
                        failure: Some(PipelineError::NotANumber { trial, text: cell }),
                    };
                }
                let ghost before = cells@;
                cells.push(cell);
                assert(texts(cells@) =~= texts(before).push(cell@));
                Aggregation { cells, failure }
            },
            Err(error) => Aggregation { cells, failure: Some(error) },
        }
    }

    /// Ends the walk. It yields the tree where every trial has handed in its
    /// cell; else the failure that ended the walk; else, where the walk was
    /// left before its end, the failure that the trial then due has not been
    /// measured.
    pub fn finish(self) -> (outcome: Result<Results, PipelineError>)
        ensures
            outcome is Ok <==> self.failure() is None && self.gathered().len() == TRIALS,
            outcome matches Ok(tree) ==> tree@ == self.gathered() && all_numbers(tree@),
            outcome matches Err(error) ==> (match self.failure() {
                Some(failure) => error@ == failure,
                None => self.due() matches Some(trial) && error@ == (ErrorText::NotYetMeasured {
                    trial,
                }),
            }),
    {
        proof {
            use_type_invariant(&self);
        }
        let Aggregation { cells, failure } = self;
        if let Some(error) = failure {
            return Err(error);
        }
        if cells.len() < TRIALS {
            Err(PipelineError::NotYetMeasured { trial: walk_trial(cells.len()) })
        } else {
            Ok(Results::assemble(&cells))
        }
    }
}

} // verus!
