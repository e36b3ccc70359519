//! The four comparison tables, as comma-separated text.
//!
//! A one-shot table has one line per column: the heading of the column and
//! its cell. A sustained table has the headings of all columns in its first
//! line and then one line per contention level: the level and the cells of
//! all columns. Columns and levels always come in their declared order.

use crate::decimal::{decimal, decimal_text};
use crate::matrix::{
    lemma_level_rank, lemma_pipeline_index_trial, level_rank, slot_cells, Capacity,
    Implementation, Shape, Trial, CAPACITIES, COLUMNS, CONTENTION_LEVELS, LEVELS, ONESHOTS,
    RECV_SLOT, TRIALS,
};
use crate::naming::{column_name, column_text, lemma_name_ends_with_column};
use crate::results::{Channels, Contentions, Results};
use vstd::prelude::*;
use vstd::string::StringExecFns;

verus! {

/// The heading of `column`.
pub open spec fn column_heading(column: int) -> Seq<char> {
    column_text(
        Implementation::at(column / CAPACITIES as int),
        Capacity::at(column % CAPACITIES as int),
    )
}

/// The line of `column` in a one-shot table.
pub open spec fn oneshot_line(cells: Seq<Seq<char>>, column: int) -> Seq<char> {
    column_heading(column) + ","@ + cells[column] + "\n"@
}

/// The lines of the first `count` columns of a one-shot table.
pub open spec fn oneshot_lines(cells: Seq<Seq<char>>, count: nat) -> Seq<char>
    decreases count,
{
    if count == 0 {
        Seq::empty()
    } else {
        oneshot_lines(cells, (count - 1) as nat) + oneshot_line(cells, count - 1)
    }
}

/// A one-shot table: a heading, then one line per column.
pub open spec fn oneshot_table(cells: Seq<Seq<char>>) -> Seq<char> {
    "channel,time\n"@ + oneshot_lines(cells, COLUMNS as nat)
}

/// The headings of the first `count` columns, a comma before each.
pub open spec fn headings(count: nat) -> Seq<char>
    decreases count,
{
    if count == 0 {
        Seq::empty()
    } else {
        headings((count - 1) as nat) + ","@ + column_heading(count - 1)
    }
}

/// The first `count` of `cells`, a comma before each.
pub open spec fn fields(cells: Seq<Seq<char>>, count: nat) -> Seq<char>
    decreases count,
{
    if count == 0 {
        Seq::empty()
    } else {
        fields(cells, (count - 1) as nat) + ","@ + cells[count - 1]
    }
}

/// The line of the contention level at `rank` in a sustained table.
pub open spec fn sustained_line(rows: Seq<Seq<Seq<char>>>, rank: int) -> Seq<char> {
    decimal_text(CONTENTION_LEVELS[rank] as nat) + fields(rows[rank], COLUMNS as nat) + "\n"@
}

/// The lines of the first `count` contention levels of a sustained table.
pub open spec fn sustained_lines(rows: Seq<Seq<Seq<char>>>, count: nat) -> Seq<char>
    decreases count,
{
    if count == 0 {
        Seq::empty()
    } else {
        sustained_lines(rows, (count - 1) as nat) + sustained_line(rows, count - 1)
    }
}

/// A sustained table: the headings of the columns, then one line per
/// contention level.
pub open spec fn sustained_table(rows: Seq<Seq<Seq<char>>>) -> Seq<char> {
    "contention"@ + headings(COLUMNS as nat) + "\n"@ + sustained_lines(rows, LEVELS as nat)
}

/// The rows of the sustained table whose first row is the slot `first`, from
/// the cells of the whole matrix.
pub open spec fn rows_from(cells: Seq<Seq<char>>, first: int) -> Seq<Seq<Seq<char>>> {
    Seq::new(LEVELS as nat, |rank: int| slot_cells(cells, first + rank))
}

/// The table of `shape`, from the cells of the whole matrix in the order of
/// the aggregation's walk.
pub open spec fn table_text(cells: Seq<Seq<char>>, shape: Shape) -> Seq<char> {
    match shape {
        Shape::OneshotSend => oneshot_table(slot_cells(cells, 0)),
        Shape::OneshotRecv => oneshot_table(slot_cells(cells, 1)),
        Shape::SustainedSend => sustained_table(rows_from(cells, ONESHOTS as int)),
        Shape::SustainedRecv => sustained_table(rows_from(cells, RECV_SLOT as int)),
    }
}

/// The name of the file that the table of `shape` goes to.
pub open spec fn file_name_text(shape: Shape) -> Seq<char> {
    match shape {
        Shape::OneshotSend => "oneshot-send.csv"@,
        Shape::OneshotRecv => "oneshot-recv.csv"@,
        Shape::SustainedSend => "mpmc-send.csv"@,
        Shape::SustainedRecv => "mpmc-recv.csv"@,
    }
}

/// The shape whose table is written as number `rank`.
pub open spec fn report_shape(rank: int) -> Shape {
    if rank == 0 {
        Shape::OneshotSend
    } else if rank == 1 {
        Shape::OneshotRecv
    } else if rank == 2 {
        Shape::SustainedSend
    } else {
        Shape::SustainedRecv
    }
}

/// One table, ready to be written.
#[derive(Clone, Debug, PartialEq, Eq)]
pub struct Report {
    pub shape: Shape,
    pub file_name: String,
    pub contents: String,
}

fn heading(column: usize) -> (name: String)
    requires
        column < COLUMNS,
    ensures
        name@ == column_heading(column as int),
{
    let implementation = match Implementation::from_rank(column / CAPACITIES) {
        Some(implementation) => implementation,
        None => Implementation::Flume,
    };
    let capacity = match Capacity::from_rank(column % CAPACITIES) {
        Some(capacity) => capacity,
        None => Capacity::Unbounded,
    };
    column_name(implementation, capacity)
}

/// Writes the headings of all columns, in column order.
pub fn column_names() -> (names: Vec<String>)
    ensures
        names@.len() == COLUMNS,
        forall|column: int|
            0 <= column < COLUMNS ==> (#[trigger] names@[column])@ == column_heading(column),
{
    let mut names: Vec<String> = Vec::new();
    let mut column: usize = 0;
    while column < COLUMNS
        invariant
            column <= COLUMNS,
            names@.len() == column,
            forall|c: int| 0 <= c < column ==> (#[trigger] names@[c])@ == column_heading(c),
        decreases COLUMNS - column,
    {
        names.push(heading(column));
        column += 1;
    }
    names
}

impl Channels {
    /// Appends the one-shot table of these cells to `to`.
    pub fn write_csv(&self, to: &mut String)
        ensures
            final(to)@ == old(to)@ + oneshot_table(self@),
    {
        let mut table = String::from_str("channel,time\n");
        let mut column: usize = 0;
        while column < COLUMNS
            invariant
                column <= COLUMNS,
                table@ == "channel,time\n"@ + oneshot_lines(self@, column as nat),
            decreases COLUMNS - column,
        {
            let mut line = heading(column);
            line.append(",");
            if let Some(cell) = self.cell(column) {
                line.append(cell.as_str());
            }
            line.append("\n");
            let ghost lines = oneshot_lines(self@, column as nat);
            table.append(line.as_str());
            assert(table@ =~= "channel,time\n"@ + (lines + oneshot_line(self@, column as int)));
            column += 1;
        }
        to.append(table.as_str());
    }
}

fn write_headings(to: &mut String)
    ensures
        final(to)@ == old(to)@ + headings(COLUMNS as nat),
{
    let mut list = String::new();
    let mut column: usize = 0;
    while column < COLUMNS
        invariant
            column <= COLUMNS,
            list@ == headings(column as nat),
        decreases COLUMNS - column,
    {
        list.append(",");
        list.append(heading(column).as_str());
        column += 1;
    }
    to.append(list.as_str());
}

fn write_fields(channels: &Channels, to: &mut String)
    ensures
        final(to)@ == old(to)@ + fields(channels@, COLUMNS as nat),
{
    let mut list = String::new();
    let mut column: usize = 0;
    while column < COLUMNS
        invariant
            column <= COLUMNS,
            list@ == fields(channels@, column as nat),
        decreases COLUMNS - column,
    {
        list.append(",");
        if let Some(cell) = channels.cell(column) {
            list.append(cell.as_str());
        }
        column += 1;
    }
    to.append(list.as_str());
}

impl Contentions {
    /// Appends the sustained table of these cells to `to`.
    pub fn write_csv(&self, to: &mut String)
        ensures
            final(to)@ == old(to)@ + sustained_table(self@),
    {
        let mut table = String::from_str("contention");
        write_headings(&mut table);
        table.append("\n");
        let ghost head = table@;
        let mut rank: usize = 0;
        while rank < LEVELS
            invariant
                rank <= LEVELS,
                head == "contention"@ + headings(COLUMNS as nat) + "\n"@,
                table@ == head + sustained_lines(self@, rank as nat),
            decreases LEVELS - rank,
        {
            let level = CONTENTION_LEVELS[rank];
            let mut line = decimal(level as u128);
            proof {
                lemma_level_rank(rank as int);
            }
            if let Some(channels) = self.get(level) {
                write_fields(channels, &mut line);
            }
            line.append("\n");
            let ghost lines = sustained_lines(self@, rank as nat);
            table.append(line.as_str());
            assert(table@ =~= head + (lines + sustained_line(self@, rank as int)));
            rank += 1;
        }
        to.append(table.as_str());
    }
}

/// The name of the file that the table of `shape` goes to.
pub fn file_name(shape: Shape) -> (name: &'static str)
    ensures
        name@ == file_name_text(shape),
{
    match shape {
        Shape::OneshotSend => "oneshot-send.csv",
        Shape::OneshotRecv => "oneshot-recv.csv",
        Shape::SustainedSend => "mpmc-send.csv",
        Shape::SustainedRecv => "mpmc-recv.csv",
    }
}

/// Writes the table of `shape`.
pub fn render(results: &Results, shape: Shape) -> (text: String)
    ensures
        text@ == table_text(results@, shape),
{
    let mut text = String::new();
    match shape {
        Shape::OneshotSend | Shape::OneshotRecv => {
            results.oneshot(shape.direction()).write_csv(&mut text);
        },
        Shape::SustainedSend | Shape::SustainedRecv => {
            let contentions = results.sustained(shape.direction());
            assert(contentions@ =~= rows_from(
                results@,
                if shape is SustainedSend {
                    ONESHOTS as int
                } else {
                    RECV_SLOT as int
                },
            ));
            contentions.write_csv(&mut text);
        },
    }
    assert(text@ =~= table_text(results@, shape));
    text
}

/// Writes all four tables, in the order in which they are to be written out:
/// one-shot send, one-shot receive, sustained send, sustained receive.
pub fn reports(results: &Results) -> (tables: Vec<Report>)
    ensures
        tables@.len() == 4,
        forall|rank: int|
            0 <= rank < 4 ==> {
                let table = #[trigger] tables@[rank];
                &&& table.shape == report_shape(rank)
                &&& table.file_name@ == file_name_text(table.shape)
                &&& table.contents@ == table_text(results@, table.shape)
            },
{
    let mut tables: Vec<Report> = Vec::new();
    tables.push(report(results, Shape::OneshotSend));
    tables.push(report(results, Shape::OneshotRecv));
    tables.push(report(results, Shape::SustainedSend));
    tables.push(report(results, Shape::SustainedRecv));
    tables
}

fn report(results: &Results, shape: Shape) -> (table: Report)
    ensures
        table.shape == shape,
        table.file_name@ == file_name_text(shape),
        table.contents@ == table_text(results@, shape),
{
    Report { shape, file_name: String::from_str(file_name(shape)), contents: render(results, shape) }
}

/// The cell that the tables show for `trial`: in the table of the trial's
/// shape, in the row of its contention level where the table has rows, in the
/// trial's column.
pub open spec fn shown_cell(cells: Seq<Seq<char>>, trial: Trial) -> Seq<char> {
    match trial.shape {
        Shape::OneshotSend => slot_cells(cells, 0)[trial.column()],
        Shape::OneshotRecv => slot_cells(cells, 1)[trial.column()],
        Shape::SustainedSend => rows_from(cells, ONESHOTS as int)[level_rank(
            trial.contention,
        )][trial.column()],
        Shape::SustainedRecv => rows_from(cells, RECV_SLOT as int)[level_rank(
            trial.contention,
        )][trial.column()],
    }
}

/// The tables show for every trial of the matrix the cell that was gathered
/// for it: the cell at the trial's position in the aggregation's walk.
pub proof fn lemma_tables_show_gathered_cells(cells: Seq<Seq<char>>, trial: Trial)
    requires
        cells.len() == TRIALS,
        trial.in_matrix(),
    ensures
        shown_cell(cells, trial) == cells[trial.pipeline_index()],
{
    lemma_pipeline_index_trial(trial);
}

/// The heading of a trial's column is the end of the trial's name, after a
/// blank: whoever reads a table finds the samples behind a cell by the name
/// that the workload and the column's heading make.
pub proof fn lemma_heading_ends_name(trial: Trial)
    requires
        trial.in_matrix(),
    ensures
        ({
            let name = trial.name_text();
            let heading = column_heading(trial.column());
            &&& 0 <= trial.column() < COLUMNS
            &&& name.len() > heading.len()
            &&& name.skip(name.len() - heading.len()) == heading
            &&& name[name.len() - heading.len() - 1] == ' '
        }),
{
    lemma_pipeline_index_trial(trial);
    lemma_name_ends_with_column(trial);
    let rank = trial.capacity.rank();
    assert(Capacity::at(rank) == trial.capacity);
}

} // verus!
