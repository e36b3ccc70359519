//! What can go wrong while samples are read back, and how it is told.
//!
//! Every failure names the trial that it belongs to, and a malformed record
//! also the line it stands on, so that one message is enough to find the
//! place among the files of the whole matrix.

use crate::decimal::{decimal, decimal_text};
use crate::matrix::Trial;
use vstd::prelude::*;
use vstd::string::StringExecFns;

verus! {

/// Why a record of a sample file cannot be used.
#[derive(Clone, Debug, PartialEq, Eq)]
pub enum RowFault {
    /// The file's reader could not make a record of the line.
    Unreadable { reason: String },
    /// The record is too short to hold the three fields of a sample.
    TooFewFields { found: usize },
    /// The field of the measured value is not a number.
    BadMeasuredValue { text: String },
    /// The unit tag is none of the known ones.
    UnknownUnit { tag: String },
    /// The field of the iteration count is not a number.
    BadIterationCount { text: String },
}

/// Why the samples of a trial cannot be reduced.
#[derive(Clone, Debug, PartialEq, Eq)]
pub enum PipelineError {
    /// The trial has no sample file: the measurement has not been run.
    NotYetMeasured { trial: Trial },
    /// A record of the trial's sample file is malformed. `record` counts the
    /// records after the heading from zero.
    Malformed { trial: Trial, record: usize, fault: RowFault },
    /// The trial's sample file holds no record, so there is nothing to take
    /// a mean of.
    NoSamples { trial: Trial },
    /// What was handed in as the trial's cell is no number.
    NotANumber { trial: Trial, text: String },
}

/// A `RowFault` with its texts as sequences of characters.
pub enum FaultText {
    Unreadable { reason: Seq<char> },
    TooFewFields { found: usize },
    BadMeasuredValue { text: Seq<char> },
    UnknownUnit { tag: Seq<char> },
    BadIterationCount { text: Seq<char> },
}

/// A `PipelineError` with its texts as sequences of characters.
pub enum ErrorText {
    NotYetMeasured { trial: Trial },
    Malformed { trial: Trial, record: usize, fault: FaultText },
    NoSamples { trial: Trial },
    NotANumber { trial: Trial, text: Seq<char> },
}

impl View for RowFault {
    type V = FaultText;

    open spec fn view(&self) -> FaultText {
        match self {
            RowFault::Unreadable { reason } => FaultText::Unreadable { reason: reason@ },
            RowFault::TooFewFields { found } => FaultText::TooFewFields { found: *found },
            RowFault::BadMeasuredValue { text } => FaultText::BadMeasuredValue { text: text@ },
            RowFault::UnknownUnit { tag } => FaultText::UnknownUnit { tag: tag@ },
            RowFault::BadIterationCount { text } => FaultText::BadIterationCount { text: text@ },
        }
    }
}

impl View for PipelineError {
    type V = ErrorText;

    open spec fn view(&self) -> ErrorText {
        match self {
            PipelineError::NotYetMeasured { trial } => ErrorText::NotYetMeasured { trial: *trial },
            PipelineError::Malformed { trial, record, fault } => ErrorText::Malformed {
                trial: *trial,
                record: *record,
                fault: fault@,
            },
            PipelineError::NoSamples { trial } => ErrorText::NoSamples { trial: *trial },
            PipelineError::NotANumber { trial, text } => ErrorText::NotANumber {
                trial: *trial,
                text: text@,
            },
        }
    }
}

impl FaultText {
    /// The fault in words.
    pub open spec fn message(self) -> Seq<char> {
        match self {
            FaultText::Unreadable { reason } => reason,
            FaultText::TooFewFields { found } => "Expected 8 fields in record, found "@
                + decimal_text(found as nat),
            FaultText::BadMeasuredValue { .. } => "Sample measured value"@,
            FaultText::UnknownUnit { tag } => "Unknown unit "@ + tag,
            FaultText::BadIterationCount { .. } => "Iteration count"@,
        }
    }
}

impl ErrorText {
    /// The trial that the failure belongs to.
    pub open spec fn trial(self) -> Trial {
        match self {
            ErrorText::NotYetMeasured { trial } => trial,
            ErrorText::Malformed { trial, .. } => trial,
            ErrorText::NoSamples { trial } => trial,
            ErrorText::NotANumber { trial, .. } => trial,
        }
    }

    /// The line of the sample file that the failure belongs to, where it
    /// belongs to one. The heading is line 1, so the first record stands on
    /// line 2.
    pub open spec fn line(self) -> Option<nat> {
        match self {
            ErrorText::Malformed { record, .. } => Some((record + 2) as nat),
            _ => None,
        }
    }

    /// The failure in words: the name of the trial, the line where there is
    /// one, and what is wrong.
    pub open spec fn message(self) -> Seq<char> {
        match self {
            ErrorText::NotYetMeasured { trial } => "trial '"@ + trial.name_text()
                + "': Benchmarks have not been run"@,
            ErrorText::Malformed { trial, record, fault } => "trial '"@ + trial.name_text()
                + "', line "@ + decimal_text((record + 2) as nat) + ": "@ + fault.message(),
            ErrorText::NoSamples { trial } => "trial '"@ + trial.name_text()
                + "' holds no samples"@,
            ErrorText::NotANumber { trial, text } => "trial '"@ + trial.name_text() + "': cell '"@
                + text + "' is not a number"@,
        }
    }
}

impl RowFault {
    /// Says in words what is wrong with the record.
    pub fn describe(&self) -> (message: String)
        ensures
            message@ == self@.message(),
    {
        match self {
            RowFault::Unreadable { reason } => reason.clone(),
            RowFault::TooFewFields { found } => {
                let mut message = String::from_str("Expected 8 fields in record, found ");
                message.append(decimal(*found as u128).as_str());
                message
            },
            RowFault::BadMeasuredValue { .. } => String::from_str("Sample measured value"),
            RowFault::UnknownUnit { tag } => {
                let mut message = String::from_str("Unknown unit ");
                message.append(tag.as_str());
                message
            },
            RowFault::BadIterationCount { .. } => String::from_str("Iteration count"),
        }
    }
}

impl PipelineError {
    /// The trial that the failure belongs to.
    pub fn trial(&self) -> (trial: Trial)
        ensures
            trial == self@.trial(),
    {
        match self {
            PipelineError::NotYetMeasured { trial } => *trial,
            PipelineError::Malformed { trial, .. } => *trial,
            PipelineError::NoSamples { trial } => *trial,
            PipelineError::NotANumber { trial, .. } => *trial,
        }
    }

    /// The line of the sample file that the failure belongs to, where it
    /// belongs to one.
    pub fn line(&self) -> (line: Option<u128>)
        ensures
            line is Some <==> self@.line() is Some,
            line matches Some(n) ==> n == self@.line()->0,
    {
        match self {
            PipelineError::Malformed { record, .. } => Some(*record as u128 + 2),
            _ => None,
        }
    }

    /// Says in words which trial failed, on which line, and why.
    pub fn describe(&self) -> (message: String)
        ensures
            message@ == self@.message(),
    {
        let mut message = String::from_str("trial '");
        match self {
            PipelineError::NotYetMeasured { trial } => {
                message.append(trial.name().as_str());
                message.append("': Benchmarks have not been run");
            },
            PipelineError::Malformed { trial, record, fault } => {
                message.append(trial.name().as_str());
                message.append("', line ");
                message.append(decimal(*record as u128 + 2).as_str());
                message.append(": ");
                message.append(fault.describe().as_str());
            },
            PipelineError::NoSamples { trial } => {
                message.append(trial.name().as_str());
                message.append("' holds no samples");
            },
            PipelineError::NotANumber { trial, text } => {
                message.append(trial.name().as_str());
                message.append("': cell '");
                message.append(text.as_str());
                message.append("' is not a number");
            },
        }
        message
    }
}

} // verus!
