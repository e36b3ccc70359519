use channel_bench::matrix::{Direction, Shape};
use channel_bench::report::{column_names, file_name, render, reports};
use channel_bench::results::Results;

fn tree() -> Results {
    let cells: Vec<String> = (0..180).map(|position| format!("{}.25", position)).collect();
    Results::from_cells(&cells).unwrap()
}

fn oneshot_expected(from: usize) -> String {
    let mut text = String::from("channel,time\n");
    for (column, name) in column_names().iter().enumerate() {
        text.push_str(&format!("{},{}.25\n", name, from + column));
    }
    text
}

fn sustained_expected(from: usize) -> String {
    let mut text = String::from("contention");
    for name in column_names() {
        text.push_str(&format!(",{}", name));
    }
    text.push('\n');
    for (rank, level) in [0, 1, 2, 4].iter().enumerate() {
        text.push_str(&format!("{}", level));
        for column in 0..18 {
            text.push_str(&format!(",{}.25", from + rank * 18 + column));
        }
        text.push('\n');
    }
    text
}

#[test]
fn file_names() {
    assert_eq!(file_name(Shape::OneshotSend), "oneshot-send.csv");
    assert_eq!(file_name(Shape::OneshotRecv), "oneshot-recv.csv");
    assert_eq!(file_name(Shape::SustainedSend), "mpmc-send.csv");
    assert_eq!(file_name(Shape::SustainedRecv), "mpmc-recv.csv");
}

#[test]
fn oneshot_table_begins_as_declared() {
    let text = render(&tree(), Shape::OneshotSend);
    let lines: Vec<&str> = text.lines().collect();
    assert_eq!(lines.len(), 19);
    assert_eq!(lines[0], "channel,time");
    assert_eq!(lines[1], "async-channel bounded(1),0.25");
    assert_eq!(lines[9], "async-channel unbounded,8.25");
    assert_eq!(lines[10], "flume bounded(1),9.25");
    assert_eq!(lines[18], "flume unbounded,17.25");
    assert!(text.ends_with('\n'));
}

#[test]
fn oneshot_tables_in_full() {
    assert_eq!(render(&tree(), Shape::OneshotSend), oneshot_expected(0));
    assert_eq!(render(&tree(), Shape::OneshotRecv), oneshot_expected(18));
}

#[test]
fn sustained_table_begins_as_declared() {
    let text = render(&tree(), Shape::SustainedSend);
    let lines: Vec<&str> = text.lines().collect();
    assert_eq!(lines.len(), 5);
    assert_eq!(
        lines[0],
        "contention,async-channel bounded(1),async-channel bounded(2),async-channel bounded(4),\
         async-channel bounded(8),async-channel bounded(16),async-channel bounded(32),\
         async-channel bounded(64),async-channel bounded(128),async-channel unbounded,\
         flume bounded(1),flume bounded(2),flume bounded(4),flume bounded(8),flume bounded(16),\
         flume bounded(32),flume bounded(64),flume bounded(128),flume unbounded"
    );
    assert!(lines[1].starts_with("0,36.25,37.25,"));
    assert!(lines[2].starts_with("1,54.25,"));
    assert!(lines[3].starts_with("2,72.25,"));
    assert!(lines[4].starts_with("4,90.25,"));
    assert!(lines[4].ends_with(",107.25"));
    for line in lines {
        assert_eq!(line.split(',').count(), 19);
    }
}

#[test]
fn sustained_tables_in_full() {
    assert_eq!(render(&tree(), Shape::SustainedSend), sustained_expected(36));
    assert_eq!(render(&tree(), Shape::SustainedRecv), sustained_expected(108));
}

#[test]
fn write_csv_appends() {
    let results = tree();
    let mut text = String::from("before\n");
    results.oneshot(Direction::Send).write_csv(&mut text);
    assert_eq!(text, format!("before\n{}", oneshot_expected(0)));
    results.sustained(Direction::Recv).write_csv(&mut text);
    assert_eq!(text, format!("before\n{}{}", oneshot_expected(0), sustained_expected(108)));
}

#[test]
fn four_reports_in_order() {
    let tables = reports(&tree());
    assert_eq!(tables.len(), 4);
    let names: Vec<&str> = tables.iter().map(|t| t.file_name.as_str()).collect();
    assert_eq!(names, vec!["oneshot-send.csv", "oneshot-recv.csv", "mpmc-send.csv", "mpmc-recv.csv"]);
    let shapes: Vec<Shape> = tables.iter().map(|t| t.shape).collect();
    assert_eq!(
        shapes,
        vec![Shape::OneshotSend, Shape::OneshotRecv, Shape::SustainedSend, Shape::SustainedRecv]
    );
    for table in &tables {
        assert_eq!(table.contents, render(&tree(), table.shape));
    }
}

#[test]
fn reports_are_the_same_every_time() {
    assert_eq!(reports(&tree()), reports(&tree()));
}

#[test]
fn cell_stands_under_its_column() {
    let mut cells: Vec<String> = (0..180).map(|_| String::from("0")).collect();
    cells[9] = String::from("1e-9");
    cells[18] = String::from("2e-9");
    let results = Results::from_cells(&cells).unwrap();
    let send = render(&results, Shape::OneshotSend);
    assert!(send.contains("\nflume bounded(1),1e-9\n"));
    let recv = render(&results, Shape::OneshotRecv);
    assert!(recv.contains("\nasync-channel bounded(1),2e-9\n"));
}
