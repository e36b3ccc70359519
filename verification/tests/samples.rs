use channel_bench::error::{PipelineError, RowFault};
use channel_bench::matrix::{Capacity, Implementation, Shape, Trial};
use channel_bench::samples::{
    read_csv_record, read_row, read_rows, read_trial, sample_file, unit_scale, RawSample, Row,
    ITERATIONS_FIELD, MEASURED_FIELD, MIN_FIELDS, UNIT_FIELD,
};

const HEADING: &str =
    "group,function,value,throughput_num,throughput_type,sample_measured_value,unit,iteration_count\n";

fn trial() -> Trial {
    Trial {
        implementation: Implementation::Flume,
        shape: Shape::OneshotSend,
        capacity: Capacity::Bounded(1),
        contention: 0,
    }
}

fn file(lines: &[&str]) -> Vec<u8> {
    let mut text = String::from(HEADING);
    for line in lines {
        text.push_str(line);
        text.push('\n');
    }
    text.into_bytes()
}

fn fields(measured: &str, unit: &str, iterations: &str) -> Vec<String> {
    vec!["g", "f", "", "", "", measured, unit, iterations].into_iter().map(String::from).collect()
}

fn cost(sample: &RawSample) -> f64 {
    let measured: f64 = sample.measured.parse().unwrap();
    let iterations: f64 = sample.iterations.parse().unwrap();
    measured * sample.scale as f64 / iterations
}

fn mean(samples: &[RawSample]) -> f64 {
    samples.iter().map(cost).sum::<f64>() / samples.len() as f64
}

#[test]
fn sample_file_of_a_trial() {
    assert_eq!(sample_file(&trial()), vec!["oneshot send flume bounded(1)", "new", "raw.csv"]);
    let sustained = Trial { shape: Shape::SustainedRecv, contention: 4, capacity: Capacity::Unbounded, ..trial() };
    assert_eq!(sample_file(&sustained), vec!["mpmc recv contended(4) flume unbounded", "new", "raw.csv"]);
}

#[test]
fn field_positions() {
    assert_eq!(MEASURED_FIELD, 5);
    assert_eq!(UNIT_FIELD, 6);
    assert_eq!(ITERATIONS_FIELD, 7);
    assert_eq!(MIN_FIELDS, 8);
}

#[test]
fn scale_table() {
    assert_eq!(unit_scale("ns"), Some(1));
    assert_eq!(unit_scale("us"), Some(1_000));
    assert_eq!(unit_scale("ms"), Some(1_000_000));
    assert_eq!(unit_scale("s"), Some(1_000_000_000));
}

#[test]
fn unknown_units() {
    for tag in ["", "NS", "ns ", " ns", "sec", "ps", "\u{b5}s", "m", "n"] {
        assert_eq!(unit_scale(tag), None, "{:?}", tag);
    }
}

#[test]
fn fields_of_a_good_record() {
    let sample = read_csv_record(&fields("1234.5", "ns", "10")).unwrap();
    assert_eq!(
        sample,
        RawSample { measured: String::from("1234.5"), scale: 1, iterations: String::from("10") }
    );
}

#[test]
fn fields_beyond_the_eighth_are_ignored() {
    let mut record = fields("7", "ms", "2");
    record.push(String::from("more"));
    record.push(String::from("and more"));
    let sample = read_csv_record(&record).unwrap();
    assert_eq!(sample.scale, 1_000_000);
    assert_eq!(sample.measured, "7");
    assert_eq!(sample.iterations, "2");
}

#[test]
fn too_few_fields() {
    let mut record = fields("1", "ns", "1");
    record.pop();
    assert_eq!(read_csv_record(&record), Err(RowFault::TooFewFields { found: 7 }));
    assert_eq!(read_csv_record(&Vec::new()), Err(RowFault::TooFewFields { found: 0 }));
}

#[test]
fn bad_measured_value() {
    assert_eq!(
        read_csv_record(&fields("fast", "ns", "1")),
        Err(RowFault::BadMeasuredValue { text: String::from("fast") })
    );
    assert_eq!(
        read_csv_record(&fields("", "ns", "1")),
        Err(RowFault::BadMeasuredValue { text: String::new() })
    );
}

#[test]
fn unknown_unit() {
    assert_eq!(
        read_csv_record(&fields("1", "hours", "1")),
        Err(RowFault::UnknownUnit { tag: String::from("hours") })
    );
}

#[test]
fn bad_iteration_count() {
    assert_eq!(
        read_csv_record(&fields("1", "ns", "many")),
        Err(RowFault::BadIterationCount { text: String::from("many") })
    );
}

#[test]
fn faults_are_found_in_field_order() {
    assert_eq!(
        read_csv_record(&fields("x", "y", "z")),
        Err(RowFault::BadMeasuredValue { text: String::from("x") })
    );
    assert_eq!(
        read_csv_record(&fields("1", "y", "z")),
        Err(RowFault::UnknownUnit { tag: String::from("y") })
    );
    let mut short = fields("x", "y", "z");
    short.truncate(6);
    assert_eq!(read_csv_record(&short), Err(RowFault::TooFewFields { found: 6 }));
}

#[test]
fn row_with_a_reader_complaint() {
    let row: Row = Err(String::from("broken line"));
    assert_eq!(read_row(&row), Err(RowFault::Unreadable { reason: String::from("broken line") }));
    let row: Row = Ok(fields("3", "us", "1"));
    assert_eq!(read_row(&row).unwrap().scale, 1_000);
}

#[test]
fn rows_reduce_to_samples_in_order() {
    let rows: Vec<Row> = vec![Ok(fields("1", "ns", "1")), Ok(fields("2", "us", "4"))];
    let samples = read_rows(trial(), &rows).unwrap();
    assert_eq!(samples.len(), 2);
    assert_eq!(samples[0].measured, "1");
    assert_eq!(samples[1].measured, "2");
    assert_eq!(samples[1].scale, 1_000);
    assert_eq!(samples[1].iterations, "4");
}

#[test]
fn rows_fail_at_the_first_bad_row() {
    let rows: Vec<Row> = vec![
        Ok(fields("1", "ns", "1")),
        Ok(fields("1", "weeks", "1")),
        Err(String::from("later")),
    ];
    assert_eq!(
        read_rows(trial(), &rows),
        Err(PipelineError::Malformed {
            trial: trial(),
            record: 1,
            fault: RowFault::UnknownUnit { tag: String::from("weeks") },
        })
    );
}

#[test]
fn no_rows_is_a_failure() {
    assert_eq!(read_rows(trial(), &Vec::new()), Err(PipelineError::NoSamples { trial: trial() }));
}

#[test]
fn file_with_samples() {
    let data = file(&["g,f,,,,100.0,ns,10", "g,f,,,,300.0,ns,20", "g,f,,,,600.0,ns,30"]);
    let samples = read_trial(trial(), &data).unwrap();
    assert_eq!(samples.len(), 3);
    assert_eq!(samples[0].measured, "100.0");
    assert_eq!(samples[0].scale, 1);
    assert_eq!(samples[0].iterations, "10");
    assert_eq!(samples[2].measured, "600.0");
    assert_eq!(samples[2].iterations, "30");
}

#[test]
fn file_heading_is_not_a_sample() {
    let data = file(&["g,f,,,,1,ns,1"]);
    assert_eq!(read_trial(trial(), &data).unwrap().len(), 1);
}

#[test]
fn file_with_quoted_fields() {
    let data = file(&["\"g,1\",\"f \"\"x\"\"\",,,,\"42\",\"us\",\"7\""]);
    let samples = read_trial(trial(), &data).unwrap();
    assert_eq!(
        samples,
        vec![RawSample { measured: String::from("42"), scale: 1_000, iterations: String::from("7") }]
    );
}

#[test]
fn file_without_records() {
    assert_eq!(
        read_trial(trial(), HEADING.as_bytes()),
        Err(PipelineError::NoSamples { trial: trial() })
    );
    assert_eq!(read_trial(trial(), b""), Err(PipelineError::NoSamples { trial: trial() }));
}

#[test]
fn file_with_unknown_unit_names_the_line() {
    let data = file(&["g,f,,,,1,ns,1", "g,f,,,,1,ns,1", "g,f,,,,1,fortnights,1"]);
    let error = read_trial(trial(), &data).unwrap_err();
    assert_eq!(
        error,
        PipelineError::Malformed {
            trial: trial(),
            record: 2,
            fault: RowFault::UnknownUnit { tag: String::from("fortnights") },
        }
    );
    assert_eq!(error.line(), Some(4));
    assert_eq!(error.trial(), trial());
}

#[test]
fn file_with_bad_numbers() {
    let data = file(&["g,f,,,,abc,ns,1"]);
    assert_eq!(
        read_trial(trial(), &data),
        Err(PipelineError::Malformed {
            trial: trial(),
            record: 0,
            fault: RowFault::BadMeasuredValue { text: String::from("abc") },
        })
    );
    let data = file(&["g,f,,,,1,ns,"]);
    assert_eq!(
        read_trial(trial(), &data),
        Err(PipelineError::Malformed {
            trial: trial(),
            record: 0,
            fault: RowFault::BadIterationCount { text: String::new() },
        })
    );
}

#[test]
fn file_with_short_records() {
    let data = b"a,b,c\n1,ns,1\n".to_vec();
    assert_eq!(
        read_trial(trial(), &data),
        Err(PipelineError::Malformed {
            trial: trial(),
            record: 0,
            fault: RowFault::TooFewFields { found: 3 },
        })
    );
}

#[test]
fn file_with_a_record_of_another_length() {
    let data = file(&["g,f,,,,1,ns,1", "g,f,,,,1,ns,1,extra"]);
    match read_trial(trial(), &data) {
        Err(PipelineError::Malformed { trial: failed, record, fault: RowFault::Unreadable { reason } }) => {
            assert_eq!(failed, trial());
            assert_eq!(record, 1);
            assert!(reason.contains("9 fields"), "{}", reason);
            assert!(reason.contains("8 fields"), "{}", reason);
        }
        other => panic!("{:?}", other),
    }
}

#[test]
fn file_with_invalid_text() {
    let mut data = file(&["g,f,,,,1,ns,1"]);
    data.extend_from_slice(b"g,f,,,,\xff,ns,1\n");
    match read_trial(trial(), &data) {
        Err(PipelineError::Malformed { record, fault: RowFault::Unreadable { .. }, .. }) => {
            assert_eq!(record, 1);
        }
        other => panic!("{:?}", other),
    }
}

#[test]
fn mean_of_known_samples() {
    let data = file(&["g,f,,,,100.0,ns,10", "g,f,,,,300.0,ns,20", "g,f,,,,600.0,ns,30"]);
    let samples = read_trial(trial(), &data).unwrap();
    assert_eq!(cost(&samples[0]), 10.0);
    assert_eq!(cost(&samples[1]), 15.0);
    assert_eq!(cost(&samples[2]), 20.0);
    assert_eq!(mean(&samples), 15.0);
}

#[test]
fn mean_of_one_sample() {
    let data = file(&["g,f,,,,52.0,ns,4"]);
    let samples = read_trial(trial(), &data).unwrap();
    assert_eq!(mean(&samples), 13.0);
}

#[test]
fn units_are_normalised() {
    let millis = read_trial(trial(), &file(&["g,f,,,,5,ms,1"])).unwrap();
    let micros = read_trial(trial(), &file(&["g,f,,,,5000,us,1"])).unwrap();
    assert_eq!(mean(&millis), mean(&micros));
    assert_eq!(mean(&millis), 5_000_000.0);
    let seconds = read_trial(trial(), &file(&["g,f,,,,2,s,4"])).unwrap();
    assert_eq!(mean(&seconds), 500_000_000.0);
}

#[test]
fn reading_twice_gives_the_same() {
    let data = file(&["g,f,,,,1.5,ns,3", "g,f,,,,2.5e3,us,7"]);
    assert_eq!(read_trial(trial(), &data), read_trial(trial(), &data));
    let bad = file(&["g,f,,,,1.5,ns"]);
    assert_eq!(read_trial(trial(), &bad), read_trial(trial(), &bad));
}

#[test]
fn record_faults_in_words() {
    let short: Vec<String> = vec!["0", "", "", "", "", "5", "ns"].into_iter().map(String::from).collect();
    assert_eq!(read_csv_record(&short).unwrap_err().describe(), "Expected 8 fields in record, found 7");
    assert_eq!(
        read_csv_record(&fields("5", "min", "1")).unwrap_err().describe(),
        "Unknown unit min"
    );
    assert_eq!(
        read_csv_record(&fields("abc", "ns", "1")).unwrap_err().describe(),
        "Sample measured value"
    );
    assert_eq!(read_csv_record(&fields("5", "ns", "x")).unwrap_err().describe(), "Iteration count");
}
