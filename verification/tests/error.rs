use channel_bench::error::{PipelineError, RowFault};
use channel_bench::matrix::{Capacity, Implementation, Shape, Trial};

fn trial() -> Trial {
    Trial {
        implementation: Implementation::AsyncChannel,
        shape: Shape::SustainedRecv,
        capacity: Capacity::Bounded(8),
        contention: 2,
    }
}

#[test]
fn not_yet_measured_tells_what_to_do() {
    let error = PipelineError::NotYetMeasured { trial: trial() };
    assert_eq!(
        error.describe(),
        "trial 'mpmc recv contended(2) async-channel bounded(8)': Benchmarks have not been run"
    );
    assert_eq!(error.trial(), trial());
    assert_eq!(error.line(), None);
}

#[test]
fn no_samples_names_the_trial() {
    let error = PipelineError::NoSamples { trial: trial() };
    assert_eq!(
        error.describe(),
        "trial 'mpmc recv contended(2) async-channel bounded(8)' holds no samples"
    );
    assert_eq!(error.trial(), trial());
    assert_eq!(error.line(), None);
}

#[test]
fn malformed_names_trial_and_line() {
    let error = PipelineError::Malformed {
        trial: trial(),
        record: 0,
        fault: RowFault::TooFewFields { found: 3 },
    };
    assert_eq!(
        error.describe(),
        "trial 'mpmc recv contended(2) async-channel bounded(8)', line 2: Expected 8 fields in record, found 3"
    );
    assert_eq!(error.line(), Some(2));
    assert_eq!(error.trial(), trial());
}

#[test]
fn line_counts_the_heading() {
    let error = PipelineError::Malformed {
        trial: trial(),
        record: 98,
        fault: RowFault::UnknownUnit { tag: String::from("h") },
    };
    assert_eq!(error.line(), Some(100));
    assert!(error.describe().ends_with("', line 100: Unknown unit h"));
}

#[test]
fn line_of_the_last_record_there_can_be() {
    let error = PipelineError::Malformed {
        trial: trial(),
        record: usize::MAX,
        fault: RowFault::TooFewFields { found: 0 },
    };
    assert_eq!(error.line(), Some(usize::MAX as u128 + 2));
}

#[test]
fn faults_in_words() {
    assert_eq!(RowFault::Unreadable { reason: String::from("as told") }.describe(), "as told");
    assert_eq!(
        RowFault::TooFewFields { found: 7 }.describe(),
        "Expected 8 fields in record, found 7"
    );
    assert_eq!(
        RowFault::BadMeasuredValue { text: String::from("abc") }.describe(),
        "Sample measured value"
    );
    assert_eq!(RowFault::UnknownUnit { tag: String::from("min") }.describe(), "Unknown unit min");
    assert_eq!(RowFault::BadIterationCount { text: String::from("x") }.describe(), "Iteration count");
}

#[test]
fn not_a_number_names_trial_and_cell() {
    let error = PipelineError::NotANumber { trial: trial(), text: String::from("a,b") };
    assert_eq!(
        error.describe(),
        "trial 'mpmc recv contended(2) async-channel bounded(8)': cell 'a,b' is not a number"
    );
    assert_eq!(error.trial(), trial());
    assert_eq!(error.line(), None);
}

#[test]
fn malformed_faults_keep_the_prefix() {
    let with = |fault: RowFault| PipelineError::Malformed { trial: trial(), record: 1, fault }.describe();
    let prefix = "trial 'mpmc recv contended(2) async-channel bounded(8)', line 3: ";
    assert_eq!(
        with(RowFault::BadMeasuredValue { text: String::from("abc") }),
        format!("{}Sample measured value", prefix)
    );
    assert_eq!(
        with(RowFault::BadIterationCount { text: String::from("x") }),
        format!("{}Iteration count", prefix)
    );
    assert_eq!(with(RowFault::Unreadable { reason: String::from("r") }), format!("{}r", prefix));
}
