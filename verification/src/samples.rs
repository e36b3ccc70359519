//! Reading the recorded samples of a trial back.
//!
//! The timing engine leaves one comma-separated file per trial: a heading,
//! then one record per sample. Of each record three fields matter: the
//! measured value, the unit it is given in, and the number of iterations that
//! the value is the total of.

use crate::error::{ErrorText, FaultText, PipelineError, RowFault};
use crate::matrix::Trial;
use crate::number::{is_number, is_numeric};
use crate::text::{same_text, texts};
use vstd::prelude::*;
use vstd::string::StringExecFns;

verus! {

/// The fewest fields that a record may have.
pub const MIN_FIELDS: usize = 8;

/// The field that holds the measured value.
pub const MEASURED_FIELD: usize = 5;

/// The field that holds the unit of the measured value.
pub const UNIT_FIELD: usize = 6;

/// The field that holds the iteration count.
pub const ITERATIONS_FIELD: usize = 7;

/// One record as the file's reader hands it out: its fields, or the reader's
/// complaint about the line.
pub type Row = Result<Vec<String>, String>;

/// A `Row` with its texts as sequences of characters.
pub type RowText = Result<Seq<Seq<char>>, Seq<char>>;

/// One sample, checked but not yet turned into numbers. The cost of one
/// operation is the measured value times the scale, which gives nanoseconds,
/// divided by the iteration count.
#[derive(Clone, Debug, PartialEq, Eq)]
pub struct RawSample {
    /// The measured value, a numeric field.
    pub measured: String,
    /// How many nanoseconds the unit of the measured value has.
    pub scale: u64,
    /// The iteration count, a numeric field.
    pub iterations: String,
}

/// A `RawSample` with its texts as sequences of characters.
pub struct SampleText {
    pub measured: Seq<char>,
    pub scale: u64,
    pub iterations: Seq<char>,
}

impl View for RawSample {
    type V = SampleText;

    open spec fn view(&self) -> SampleText {
        SampleText { measured: self.measured@, scale: self.scale, iterations: self.iterations@ }
    }
}

/// Where the samples of `trial` are kept, as the components of a path below
/// the root of the timing engine's store: a directory named like the trial,
/// in it the directory of the latest run, in it the file of raw samples.
pub open spec fn sample_file_text(trial: Trial) -> Seq<Seq<char>> {
    seq![trial.name_text(), "new"@, "raw.csv"@]
}

/// The records that the `csv` crate's reader, as `csv::Reader::from_reader`
/// sets it up, yields for a file's bytes: the first record is taken for the
/// heading and left out, and each one after it comes as its fields or as the
/// message of the reader's error.
pub uninterp spec fn csv_records(data: Seq<u8>) -> Seq<RowText>;

pub open spec fn row_text(row: Row) -> RowText {
    match row {
        Ok(fields) => Ok(texts(fields@)),
        Err(reason) => Err(reason@),
    }
}

pub open spec fn rows_text(rows: Seq<Row>) -> Seq<RowText> {
    Seq::new(rows.len(), |i: int| row_text(rows[i]))
}

pub open spec fn samples_text(samples: Seq<RawSample>) -> Seq<SampleText> {
    Seq::new(samples.len(), |i: int| samples[i]@)
}

/// How many nanoseconds the unit named `tag` has, if `tag` names a unit.
pub open spec fn unit_scale_of(tag: Seq<char>) -> Option<u64> {
    if tag == "ns"@ {
        Some(1u64)
    } else if tag == "us"@ {
        Some(1_000u64)
    } else if tag == "ms"@ {
        Some(1_000_000u64)
    } else if tag == "s"@ {
        Some(1_000_000_000u64)
    } else {
        None
    }
}

/// The sample that a record's fields hold, or the first thing that is wrong
/// with them: too few fields, a measured value that is no number, an unknown
/// unit, an iteration count that is no number.
pub open spec fn sample_of_fields(fields: Seq<Seq<char>>) -> Result<SampleText, FaultText> {
    let measured = fields[MEASURED_FIELD as int];
    let unit = fields[UNIT_FIELD as int];
    let iterations = fields[ITERATIONS_FIELD as int];
    if fields.len() < MIN_FIELDS {
        Err(FaultText::TooFewFields { found: fields.len() as usize })
    } else if !is_number(measured) {
        Err(FaultText::BadMeasuredValue { text: measured })
    } else if unit_scale_of(unit) is None {
        Err(FaultText::UnknownUnit { tag: unit })
    } else if !is_number(iterations) {
        Err(FaultText::BadIterationCount { text: iterations })
    } else {
        Ok(SampleText { measured, scale: unit_scale_of(unit)->0, iterations })
    }
}

/// The sample that a row holds, or what is wrong with the row.
pub open spec fn sample_of_row(row: RowText) -> Result<SampleText, FaultText> {
    match row {
        Ok(fields) => sample_of_fields(fields),
        Err(reason) => Err(FaultText::Unreadable { reason }),
    }
}

/// Whether `outcome` is what the rows of `trial` reduce to: the samples of
/// all rows in their order where every row holds one and there is at least
/// one row; else the failure of the first row that holds none, or the failure
/// that there are no rows.
pub open spec fn is_reading(
    trial: Trial,
    rows: Seq<RowText>,
    outcome: Result<Seq<SampleText>, ErrorText>,
) -> bool {
    match outcome {
        Ok(samples) => {
            &&& rows.len() > 0
            &&& samples.len() == rows.len()
            &&& forall|i: int|
                0 <= i < rows.len() ==> sample_of_row(#[trigger] rows[i]) == Ok::<
                    SampleText,
                    FaultText,
                >(samples[i])
        },
        Err(ErrorText::NoSamples { trial: failed }) => failed == trial && rows.len() == 0,
        Err(ErrorText::Malformed { trial: failed, record, fault }) => {
            &&& failed == trial
            &&& record < rows.len()
            &&& sample_of_row(rows[record as int]) == Err::<SampleText, FaultText>(fault)
            &&& forall|i: int| 0 <= i < record ==> sample_of_row(#[trigger] rows[i]) is Ok
        },
        Err(ErrorText::NotYetMeasured { .. }) => false,
        Err(ErrorText::NotANumber { .. }) => false,
    }
}

pub open spec fn outcome_text(outcome: Result<Vec<RawSample>, PipelineError>) -> Result<
    Seq<SampleText>,
    ErrorText,
> {
    match outcome {
        Ok(samples) => Ok(samples_text(samples@)),
        Err(error) => Err(error@),
    }
}

/// A trial's rows read in one way only: whatever two readings of the same rows
/// of the same trial come to, they come to the same, samples or failure.
pub proof fn lemma_reading_unique(
    trial: Trial,
    rows: Seq<RowText>,
    first: Result<Seq<SampleText>, ErrorText>,
    second: Result<Seq<SampleText>, ErrorText>,
)
    requires
        is_reading(trial, rows, first),
        is_reading(trial, rows, second),
    ensures
        first == second,
{
    match (first, second) {
        (Ok(a), Ok(b)) => {
            assert forall|i: int| 0 <= i < a.len() implies a[i] == b[i] by {
                assert(sample_of_row(rows[i]) == Ok::<SampleText, FaultText>(a[i]));
                assert(sample_of_row(rows[i]) == Ok::<SampleText, FaultText>(b[i]));
            }
            assert(a =~= b);
        },
        (Ok(a), Err(ErrorText::Malformed { record, .. })) => {
            assert(sample_of_row(rows[record as int]) is Ok);
        },
        (Err(ErrorText::Malformed { record, .. }), Ok(b)) => {
            assert(sample_of_row(rows[record as int]) is Ok);
        },
        (
            Err(ErrorText::Malformed { record: a, .. }),
            Err(ErrorText::Malformed { record: b, .. }),
        ) => {
            if a < b {
                assert(sample_of_row(rows[a as int]) is Ok);
            }
            if b < a {
                assert(sample_of_row(rows[b as int]) is Ok);
            }
        },
        _ => {},
    }
}

/// Says where the samples of `trial` are kept, as the components of a path
/// below the root of the timing engine's store.
pub fn sample_file(trial: &Trial) -> (path: Vec<String>)
    ensures
        texts(path@) == sample_file_text(*trial),
{
    let mut path: Vec<String> = Vec::new();
    path.push(trial.name());
    path.push(String::from_str("new"));
    path.push(String::from_str("raw.csv"));
    assert(texts(path@) =~= sample_file_text(*trial));
    path
}

/// Looks the unit named `tag` up in the scale table.
pub fn unit_scale(tag: &str) -> (scale: Option<u64>)
    ensures
        scale == unit_scale_of(tag@),
{
    if same_text(tag, "ns") {
        Some(1)
    } else if same_text(tag, "us") {
        Some(1_000)
    } else if same_text(tag, "ms") {
        Some(1_000_000)
    } else if same_text(tag, "s") {
        Some(1_000_000_000)
    } else {
        None
    }
}

/// Checks the fields of one record and picks the sample out of them.
pub fn read_csv_record(fields: &Vec<String>) -> (sample: Result<RawSample, RowFault>)
    ensures
        sample is Ok <==> sample_of_fields(texts(fields@)) is Ok,
        sample matches Ok(s) ==> sample_of_fields(texts(fields@)) == Ok::<
            SampleText,
            FaultText,
        >(s@),
        sample matches Err(fault) ==> sample_of_fields(texts(fields@)) == Err::<
            SampleText,
            FaultText,
        >(fault@),
{
    if fields.len() < MIN_FIELDS {
        return Err(RowFault::TooFewFields { found: fields.len() });
    }
    let measured = &fields[MEASURED_FIELD];
    let tag = &fields[UNIT_FIELD];
    let iterations = &fields[ITERATIONS_FIELD];
    if !is_numeric(measured.as_str()) {
        return Err(RowFault::BadMeasuredValue { text: measured.clone() });
    }
    let scale = match unit_scale(tag.as_str()) {
        Some(scale) => scale,
        None => {
            return Err(RowFault::UnknownUnit { tag: tag.clone() });
        },
    };
    if !is_numeric(iterations.as_str()) {
        return Err(RowFault::BadIterationCount { text: iterations.clone() });
    }
    Ok(RawSample { measured: measured.clone(), scale, iterations: iterations.clone() })
}

/// Checks one row and picks the sample out of it.
pub fn read_row(row: &Row) -> (sample: Result<RawSample, RowFault>)
    ensures
        sample is Ok <==> sample_of_row(row_text(*row)) is Ok,
        sample matches Ok(s) ==> sample_of_row(row_text(*row)) == Ok::<SampleText, FaultText>(s@),
        sample matches Err(fault) ==> sample_of_row(row_text(*row)) == Err::<
            SampleText,
            FaultText,
        >(fault@),
{
    match row {
        Ok(fields) => read_csv_record(fields),
        Err(reason) => Err(RowFault::Unreadable { reason: reason.clone() }),
    }
}

/// Reduces the rows of a trial's sample file to its samples, or to the first
/// failure among them.
pub fn read_rows(trial: Trial, rows: &Vec<Row>) -> (outcome: Result<Vec<RawSample>, PipelineError>)
    ensures
        is_reading(trial, rows_text(rows@), outcome_text(outcome)),
{
    let mut samples: Vec<RawSample> = Vec::new();
    let mut i: usize = 0;
    while i < rows.len()
        invariant
            i <= rows.len(),
            samples.len() == i,
            forall|j: int|
                0 <= j < i ==> sample_of_row(#[trigger] rows_text(rows@)[j]) == Ok::<
                    SampleText,
                    FaultText,
                >(samples@[j]@),
        decreases rows.len() - i,
    {
        match read_row(&rows[i]) {
            Ok(sample) => {
                samples.push(sample);
            },
            Err(fault) => {
                return Err(PipelineError::Malformed { trial, record: i, fault });
            },
        }
        i += 1;
    }
    if samples.len() == 0 {
        return Err(PipelineError::NoSamples { trial });
    }
    Ok(samples)
}

/// Splits the bytes of a sample file into records with the `csv` crate:
/// `csv::Reader::from_reader` on the bytes, then every item of
/// `into_records`, a record turned into its fields and an error into its
/// message. The contract says that the outcome depends on the bytes alone.
#[verifier::external_body]
fn split_records(data: &[u8]) -> (rows: Vec<Row>)
    ensures
        rows_text(rows@) == csv_records(data@),
{
    csv::Reader::from_reader(data)
        .into_records()
        .map(|read| match read {
            Ok(record) => Ok(record.iter().map(String::from).collect()),
            Err(fault) => Err(fault.to_string()),
        })
        .collect()
}

/// Reads the samples of `trial` from the bytes of its sample file.
pub fn read_trial(trial: Trial, data: &[u8]) -> (outcome: Result<Vec<RawSample>, PipelineError>)
    ensures
        is_reading(trial, csv_records(data@), outcome_text(outcome)),
{
    let rows = split_records(data);
    read_rows(trial, &rows)
}

} // verus!
