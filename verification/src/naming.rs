//! Trial names: the one place where the identity of a trial becomes text.
//!
//! The driver hands the name of a trial to the timing engine, which stores the
//! trial's samples under it; the aggregation computes the same name to find
//! them again; the reports head their columns with the part of the name that
//! says which implementation and capacity a column is for.

use crate::decimal::{
    decimal, decimal_text, is_digit, lemma_decimal_digits, lemma_decimal_injective,
};
use crate::matrix::{
    driver_order, lemma_driver_index_trial, lemma_driver_trial_index, Capacity, Implementation,
    Shape, Trial, TRIALS,
};
use vstd::prelude::*;
use vstd::string::StringExecFns;

verus! {

/// The name of an implementation.
pub open spec fn implementation_text(implementation: Implementation) -> Seq<char> {
    match implementation {
        Implementation::AsyncChannel => "async-channel"@,
        Implementation::Flume => "flume"@,
    }
}

/// How a capacity reads: `bounded(N)` with the size in decimal, or
/// `unbounded`.
pub open spec fn capacity_text(capacity: Capacity) -> Seq<char> {
    match capacity {
        Capacity::Bounded(size) => "bounded("@ + decimal_text(size as nat) + ")"@,
        Capacity::Unbounded => "unbounded"@,
    }
}

/// How a contention level reads: `uncontended` for no competing worker, else
/// `contended(N)` with their number in decimal.
pub open spec fn contention_text(level: usize) -> Seq<char> {
    if level == 0 {
        "uncontended"@
    } else {
        "contended("@ + decimal_text(level as nat) + ")"@
    }
}

/// How a shape reads.
pub open spec fn shape_text(shape: Shape) -> Seq<char> {
    match shape {
        Shape::OneshotSend => "oneshot send"@,
        Shape::OneshotRecv => "oneshot recv"@,
        Shape::SustainedSend => "mpmc send"@,
        Shape::SustainedRecv => "mpmc recv"@,
    }
}

/// The part of a trial's name that says what is done to the channel: the
/// shape and, for a sustained shape, the contention level.
pub open spec fn workload_text(shape: Shape, contention: usize) -> Seq<char> {
    if shape.is_oneshot() {
        shape_text(shape)
    } else {
        shape_text(shape) + " "@ + contention_text(contention)
    }
}

/// The heading of a report column: the implementation and the capacity.
pub open spec fn column_text(implementation: Implementation, capacity: Capacity) -> Seq<char> {
    implementation_text(implementation) + " "@ + capacity_text(capacity)
}

impl Trial {
    /// Whether the trial names its workload fully: a one-shot trial runs
    /// without competing workers, so its name carries no contention level.
    pub open spec fn is_canonical(self) -> bool {
        self.shape.is_oneshot() ==> self.contention == 0
    }

    /// The name of the trial: its workload, then the heading of its column.
    pub open spec fn name_text(self) -> Seq<char> {
        workload_text(self.shape, self.contention) + " "@ + column_text(
            self.implementation,
            self.capacity,
        )
    }
}

/// The name of an implementation.
pub fn implementation_name(implementation: Implementation) -> (name: &'static str)
    ensures
        name@ == implementation_text(implementation),
{
    match implementation {
        Implementation::AsyncChannel => "async-channel",
        Implementation::Flume => "flume",
    }
}

/// Writes a capacity as it reads in names and headings.
pub fn capacity_label(capacity: Capacity) -> (label: String)
    ensures
        label@ == capacity_text(capacity),
{
    match capacity {
        Capacity::Bounded(size) => {
            let mut label = String::from_str("bounded(");
            label.append(decimal(size as u128).as_str());
            label.append(")");
            label
        },
        Capacity::Unbounded => String::from_str("unbounded"),
    }
}

/// Writes a contention level as it reads in names.
pub fn contention_label(level: usize) -> (label: String)
    ensures
        label@ == contention_text(level),
{
    if level == 0 {
        String::from_str("uncontended")
    } else {
        let mut label = String::from_str("contended(");
        label.append(decimal(level as u128).as_str());
        label.append(")");
        label
    }
}

/// How a shape reads in names.
pub fn shape_label(shape: Shape) -> (label: &'static str)
    ensures
        label@ == shape_text(shape),
{
    match shape {
        Shape::OneshotSend => "oneshot send",
        Shape::OneshotRecv => "oneshot recv",
        Shape::SustainedSend => "mpmc send",
        Shape::SustainedRecv => "mpmc recv",
    }
}

/// Writes the workload part of a trial's name.
pub fn workload_label(shape: Shape, contention: usize) -> (label: String)
    ensures
        label@ == workload_text(shape, contention),
{
    let mut label = String::from_str(shape_label(shape));
    match shape {
        Shape::OneshotSend | Shape::OneshotRecv => {},
        Shape::SustainedSend | Shape::SustainedRecv => {
            label.append(" ");
            label.append(contention_label(contention).as_str());
        },
    }
    label
}

/// Writes the heading of the report column for an implementation and a
/// capacity.
pub fn column_name(implementation: Implementation, capacity: Capacity) -> (name: String)
    ensures
        name@ == column_text(implementation, capacity),
{
    let mut name = String::from_str(implementation_name(implementation));
    name.append(" ");
    name.append(capacity_label(capacity).as_str());
    name
}

impl Trial {
    /// Writes the name of the trial, under which its samples are stored and
    /// found again.
    pub fn name(&self) -> (name: String)
        ensures
            name@ == self.name_text(),
    {
        let mut name = workload_label(self.shape, self.contention);
        name.append(" ");
        name.append(column_name(self.implementation, self.capacity).as_str());
        name
    }
}

proof fn reveal_words()
    ensures
        "async-channel"@ == seq!['a', 's', 'y', 'n', 'c', '-', 'c', 'h', 'a', 'n', 'n', 'e', 'l'],
        "flume"@ == seq!['f', 'l', 'u', 'm', 'e'],
        "bounded("@ == seq!['b', 'o', 'u', 'n', 'd', 'e', 'd', '('],
        "unbounded"@ == seq!['u', 'n', 'b', 'o', 'u', 'n', 'd', 'e', 'd'],
        "uncontended"@ == seq!['u', 'n', 'c', 'o', 'n', 't', 'e', 'n', 'd', 'e', 'd'],
        "contended("@ == seq!['c', 'o', 'n', 't', 'e', 'n', 'd', 'e', 'd', '('],
        "oneshot send"@ == seq!['o', 'n', 'e', 's', 'h', 'o', 't', ' ', 's', 'e', 'n', 'd'],
        "oneshot recv"@ == seq!['o', 'n', 'e', 's', 'h', 'o', 't', ' ', 'r', 'e', 'c', 'v'],
        "mpmc send"@ == seq!['m', 'p', 'm', 'c', ' ', 's', 'e', 'n', 'd'],
        "mpmc recv"@ == seq!['m', 'p', 'm', 'c', ' ', 'r', 'e', 'c', 'v'],
        " "@ == seq![' '],
        ")"@ == seq![')'],
{
    reveal_strlit("async-channel");
    reveal_strlit("flume");
    reveal_strlit("bounded(");
    reveal_strlit("unbounded");
    reveal_strlit("uncontended");
    reveal_strlit("contended(");
    reveal_strlit("oneshot send");
    reveal_strlit("oneshot recv");
    reveal_strlit("mpmc send");
    reveal_strlit("mpmc recv");
    reveal_strlit(" ");
    reveal_strlit(")");
    assert("async-channel"@ =~= seq![
        'a',
        's',
        'y',
        'n',
        'c',
        '-',
        'c',
        'h',
        'a',
        'n',
        'n',
        'e',
        'l',
    ]);
    assert("flume"@ =~= seq!['f', 'l', 'u', 'm', 'e']);
    assert("bounded("@ =~= seq!['b', 'o', 'u', 'n', 'd', 'e', 'd', '(']);
    assert("unbounded"@ =~= seq!['u', 'n', 'b', 'o', 'u', 'n', 'd', 'e', 'd']);
    assert("uncontended"@ =~= seq!['u', 'n', 'c', 'o', 'n', 't', 'e', 'n', 'd', 'e', 'd']);
    assert("contended("@ =~= seq!['c', 'o', 'n', 't', 'e', 'n', 'd', 'e', 'd', '(']);
    assert("oneshot send"@ =~= seq!['o', 'n', 'e', 's', 'h', 'o', 't', ' ', 's', 'e', 'n', 'd']);
    assert("oneshot recv"@ =~= seq!['o', 'n', 'e', 's', 'h', 'o', 't', ' ', 'r', 'e', 'c', 'v']);
    assert("mpmc send"@ =~= seq!['m', 'p', 'm', 'c', ' ', 's', 'e', 'n', 'd']);
    assert("mpmc recv"@ =~= seq!['m', 'p', 'm', 'c', ' ', 'r', 'e', 'c', 'v']);
    assert(" "@ =~= seq![' ']);
    assert(")"@ =~= seq![')']);
}

/// A run of digits is over where the first other character stands: two texts
/// that agree, each a run of digits and then something else, agree run by run
/// and rest by rest.
proof fn lemma_digits_end(a: Seq<char>, x: Seq<char>, b: Seq<char>, y: Seq<char>)
    requires
        a + x == b + y,
        forall|i: int| 0 <= i < a.len() ==> is_digit(#[trigger] a[i]),
        forall|i: int| 0 <= i < b.len() ==> is_digit(#[trigger] b[i]),
        x.len() > 0 && !is_digit(x[0]),
        y.len() > 0 && !is_digit(y[0]),
    ensures
        a == b,
        x == y,
{
    if a.len() < b.len() {
        assert((a + x)[a.len() as int] == x[0]);
        assert((b + y)[a.len() as int] == b[a.len() as int]);
    }
    if b.len() < a.len() {
        assert((b + y)[b.len() as int] == y[0]);
        assert((a + x)[b.len() as int] == a[b.len() as int]);
    }
    assert(a.len() == b.len());
    assert((a + x).len() == (b + y).len());
    assert forall|i: int| 0 <= i < a.len() implies a[i] == b[i] by {
        assert((a + x)[i] == a[i]);
        assert((b + y)[i] == b[i]);
    }
    assert(a =~= b);
    assert((a + x).len() == a.len() + x.len());
    assert((b + y).len() == b.len() + y.len());
    assert forall|i: int| 0 <= i < x.len() implies x[i] == y[i] by {
        assert((a + x)[a.len() + i] == x[i]);
        assert((b + y)[b.len() + i] == y[i]);
    }
    assert(x =~= y);
}

/// Where a text begins with a capacity, the capacity can be read off it.
proof fn lemma_capacity_unique(a: Capacity, b: Capacity)
    requires
        capacity_text(a) == capacity_text(b),
    ensures
        a == b,
{
    reveal_words();
    let ta = capacity_text(a);
    let tb = capacity_text(b);
    match (a, b) {
        (Capacity::Bounded(m), Capacity::Bounded(n)) => {
            let dm = decimal_text(m as nat);
            let dn = decimal_text(n as nat);
            lemma_decimal_digits(m as nat);
            lemma_decimal_digits(n as nat);
            assert(ta.skip(8) =~= dm + ")"@);
            assert(tb.skip(8) =~= dn + ")"@);
            assert(!is_digit(')'));
            lemma_digits_end(dm, ")"@, dn, ")"@);
            lemma_decimal_injective(m as nat, n as nat);
        },
        (Capacity::Bounded(m), Capacity::Unbounded) => {
            assert(ta[0] == 'b');
            assert(tb[0] == 'u');
        },
        (Capacity::Unbounded, Capacity::Bounded(n)) => {
            assert(ta[0] == 'u');
            assert(tb[0] == 'b');
        },
        (Capacity::Unbounded, Capacity::Unbounded) => {},
    }
}

/// Two columns with the same heading are the same column.
pub proof fn lemma_column_text_injective(
    implementation_a: Implementation,
    capacity_a: Capacity,
    implementation_b: Implementation,
    capacity_b: Capacity,
)
    requires
        column_text(implementation_a, capacity_a) == column_text(implementation_b, capacity_b),
    ensures
        implementation_a == implementation_b,
        capacity_a == capacity_b,
{
    reveal_words();
    let ta = column_text(implementation_a, capacity_a);
    let tb = column_text(implementation_b, capacity_b);
    assert(ta[0] == implementation_text(implementation_a)[0]);
    assert(tb[0] == implementation_text(implementation_b)[0]);
    assert(implementation_a == implementation_b);
    let skipped = implementation_text(implementation_a).len() + 1;
    assert(ta.skip(skipped as int) =~= capacity_text(capacity_a));
    assert(tb.skip(skipped as int) =~= capacity_text(capacity_b));
    lemma_capacity_unique(capacity_a, capacity_b);
}

/// What the first characters of a text that begins with a workload say.
proof fn lemma_workload_marks(shape: Shape, contention: usize, rest: Seq<char>)
    requires
        shape.is_oneshot() ==> contention == 0,
    ensures
        ({
            let text = workload_text(shape, contention) + rest;
            &&& text.len() >= 12
            &&& text[0] == (if shape.is_oneshot() {
                'o'
            } else {
                'm'
            })
            &&& shape.is_oneshot() ==> text[8] == (if shape is OneshotSend {
                's'
            } else {
                'r'
            }) && text.skip(12) == rest
            &&& !shape.is_oneshot() ==> text[5] == (if shape is SustainedSend {
                's'
            } else {
                'r'
            }) && text.len() >= 21 && text[10] == (if contention == 0 {
                'u'
            } else {
                'c'
            })
            &&& !shape.is_oneshot() && contention == 0 ==> text.skip(21) == rest
            &&& !shape.is_oneshot() && contention != 0 ==> text.skip(20) == decimal_text(
                contention as nat,
            ) + (")"@ + rest)
        }),
{
    reveal_words();
    let text = workload_text(shape, contention) + rest;
    lemma_decimal_digits(contention as nat);
    if shape.is_oneshot() {
        assert(text.skip(12) =~= rest);
    } else if contention == 0 {
        assert(text.skip(21) =~= rest);
    } else {
        assert(text.skip(20) =~= decimal_text(contention as nat) + (")"@ + rest));
    }
}

/// Two canonical trials with the same name are the same trial.
pub proof fn lemma_name_text_injective(a: Trial, b: Trial)
    requires
        a.is_canonical(),
        b.is_canonical(),
        a.name_text() == b.name_text(),
    ensures
        a == b,
{
    reveal_words();
    let rest_a = " "@ + column_text(a.implementation, a.capacity);
    let rest_b = " "@ + column_text(b.implementation, b.capacity);
    let text_a = workload_text(a.shape, a.contention) + rest_a;
    let text_b = workload_text(b.shape, b.contention) + rest_b;
    assert(text_a =~= a.name_text());
    assert(text_b =~= b.name_text());
    lemma_workload_marks(a.shape, a.contention, rest_a);
    lemma_workload_marks(b.shape, b.contention, rest_b);
    assert(a.shape == b.shape);
    if !a.shape.is_oneshot() && a.contention != 0 {
        assert(b.contention != 0);
        lemma_decimal_digits(a.contention as nat);
        lemma_decimal_digits(b.contention as nat);
        assert(!is_digit(')'));
        assert((")"@ + rest_a)[0] == ')');
        assert((")"@ + rest_b)[0] == ')');
        lemma_digits_end(
            decimal_text(a.contention as nat),
            ")"@ + rest_a,
            decimal_text(b.contention as nat),
            ")"@ + rest_b,
        );
        lemma_decimal_injective(a.contention as nat, b.contention as nat);
        assert((")"@ + rest_a).skip(1) =~= rest_a);
        assert((")"@ + rest_b).skip(1) =~= rest_b);
    }
    assert(a.contention == b.contention);
    assert(rest_a == rest_b);
    assert(rest_a.skip(1) =~= column_text(a.implementation, a.capacity));
    assert(rest_b.skip(1) =~= column_text(b.implementation, b.capacity));
    lemma_column_text_injective(a.implementation, a.capacity, b.implementation, b.capacity);
}

/// The name of every trial ends with the heading of the trial's column, so a
/// report column can be traced to the trials that fill it.
pub proof fn lemma_name_ends_with_column(trial: Trial)
    ensures
        ({
            let name = trial.name_text();
            let heading = column_text(trial.implementation, trial.capacity);
            &&& name.len() > heading.len()
            &&& name.skip(name.len() - heading.len()) == heading
            &&& name[name.len() - heading.len() - 1] == ' '
        }),
{
    reveal_words();
    let name = trial.name_text();
    let heading = column_text(trial.implementation, trial.capacity);
    assert(name.skip(name.len() - heading.len()) =~= heading);
}

/// The driver gives every trial of its run a name of its own: no name occurs
/// twice, so the samples of two trials never land in the same place.
pub proof fn lemma_driver_names_distinct(i: int, j: int)
    requires
        0 <= i < TRIALS,
        0 <= j < TRIALS,
        i != j,
    ensures
        driver_order()[i].name_text() != driver_order()[j].name_text(),
{
    lemma_driver_trial_index(i);
    lemma_driver_trial_index(j);
    if driver_order()[i].name_text() == driver_order()[j].name_text() {
        lemma_name_text_injective(driver_order()[i], driver_order()[j]);
    }
}

/// The driver names every trial of the matrix exactly once: the trial's name
/// stands at the trial's position in the run and nowhere else in it.
pub proof fn lemma_driver_names_trial_once(trial: Trial)
    requires
        trial.in_matrix(),
    ensures
        0 <= trial.driver_index() < TRIALS,
        driver_order()[trial.driver_index()].name_text() == trial.name_text(),
        forall|i: int|
            0 <= i < TRIALS && (#[trigger] driver_order()[i]).name_text() == trial.name_text() ==> i
                == trial.driver_index(),
{
    lemma_driver_index_trial(trial);
    assert forall|i: int|
        0 <= i < TRIALS && (#[trigger] driver_order()[i]).name_text()
            == trial.name_text() implies i == trial.driver_index() by {
        lemma_driver_trial_index(i);
        lemma_name_text_injective(driver_order()[i], trial);
    }
}

} // verus!
