use channel_bench::decimal::{decimal, is_decimal_digit};
use channel_bench::matrix::{Capacity, Implementation, Shape, Trial};
use channel_bench::naming::{
    capacity_label, column_name, contention_label, implementation_name, shape_label,
    workload_label,
};
use channel_bench::report::column_names;

#[test]
fn decimal_of_chosen_numbers() {
    assert_eq!(decimal(0), "0");
    assert_eq!(decimal(7), "7");
    assert_eq!(decimal(10), "10");
    assert_eq!(decimal(128), "128");
    assert_eq!(decimal(1_000_000_007), "1000000007");
    assert_eq!(decimal(u128::MAX), "340282366920938463463374607431768211455");
}

#[test]
fn decimal_agrees_with_display() {
    for n in 0..2000u128 {
        assert_eq!(decimal(n), format!("{}", n));
    }
    assert_eq!(decimal(u64::MAX as u128), format!("{}", u64::MAX));
}

#[test]
fn digits_are_the_ten_digits() {
    for c in "0123456789".chars() {
        assert!(is_decimal_digit(c));
    }
    for c in "/:aA .-+e".chars() {
        assert!(!is_decimal_digit(c));
    }
}

#[test]
fn labels_of_the_parts() {
    assert_eq!(implementation_name(Implementation::AsyncChannel), "async-channel");
    assert_eq!(implementation_name(Implementation::Flume), "flume");
    assert_eq!(capacity_label(Capacity::Bounded(1)), "bounded(1)");
    assert_eq!(capacity_label(Capacity::Bounded(128)), "bounded(128)");
    assert_eq!(capacity_label(Capacity::Unbounded), "unbounded");
    assert_eq!(contention_label(0), "uncontended");
    assert_eq!(contention_label(1), "contended(1)");
    assert_eq!(contention_label(4), "contended(4)");
    assert_eq!(shape_label(Shape::OneshotSend), "oneshot send");
    assert_eq!(shape_label(Shape::OneshotRecv), "oneshot recv");
    assert_eq!(shape_label(Shape::SustainedSend), "mpmc send");
    assert_eq!(shape_label(Shape::SustainedRecv), "mpmc recv");
}

#[test]
fn workload_labels() {
    assert_eq!(workload_label(Shape::OneshotSend, 0), "oneshot send");
    assert_eq!(workload_label(Shape::OneshotRecv, 0), "oneshot recv");
    assert_eq!(workload_label(Shape::SustainedSend, 0), "mpmc send uncontended");
    assert_eq!(workload_label(Shape::SustainedRecv, 2), "mpmc recv contended(2)");
}

#[test]
fn names_of_chosen_trials() {
    let oneshot = Trial {
        implementation: Implementation::Flume,
        shape: Shape::OneshotSend,
        capacity: Capacity::Bounded(1),
        contention: 0,
    };
    assert_eq!(oneshot.name(), "oneshot send flume bounded(1)");
    let uncontended = Trial {
        implementation: Implementation::AsyncChannel,
        shape: Shape::SustainedRecv,
        capacity: Capacity::Unbounded,
        contention: 0,
    };
    assert_eq!(uncontended.name(), "mpmc recv uncontended async-channel unbounded");
    let contended = Trial {
        implementation: Implementation::AsyncChannel,
        shape: Shape::SustainedSend,
        capacity: Capacity::Bounded(64),
        contention: 4,
    };
    assert_eq!(contended.name(), "mpmc send contended(4) async-channel bounded(64)");
}

#[test]
fn name_ends_with_column_heading() {
    for trial in channel_bench::matrix::pipeline_trials() {
        let heading = column_name(trial.implementation, trial.capacity);
        let name = trial.name();
        assert!(name.ends_with(&format!(" {}", heading)));
        let column = trial.position().unwrap() % 18;
        assert_eq!(column_names()[column], heading);
    }
}

#[test]
fn column_headings_in_declared_order() {
    assert_eq!(
        column_names(),
        vec![
            "async-channel bounded(1)",
            "async-channel bounded(2)",
            "async-channel bounded(4)",
            "async-channel bounded(8)",
            "async-channel bounded(16)",
            "async-channel bounded(32)",
            "async-channel bounded(64)",
            "async-channel bounded(128)",
            "async-channel unbounded",
            "flume bounded(1)",
            "flume bounded(2)",
            "flume bounded(4)",
            "flume bounded(8)",
            "flume bounded(16)",
            "flume bounded(32)",
            "flume bounded(64)",
            "flume bounded(128)",
            "flume unbounded",
        ]
    );
}

#[test]
fn names_outside_the_matrix_stay_apart() {
    let a = Trial {
        implementation: Implementation::Flume,
        shape: Shape::SustainedSend,
        capacity: Capacity::Bounded(12),
        contention: 1,
    };
    let b = Trial { capacity: Capacity::Bounded(2), contention: 11, ..a };
    assert_eq!(a.name(), "mpmc send contended(1) flume bounded(12)");
    assert_eq!(b.name(), "mpmc send contended(11) flume bounded(2)");
    assert_ne!(a.name(), b.name());
}
