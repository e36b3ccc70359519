//! The experiment matrix: which trials exist, and in which order the driver
//! and the aggregation walk through them.
//!
//! A trial is one point of the matrix: an implementation, a workload shape, a
//! capacity configuration and a contention level. The declared values of each
//! axis live here and nowhere else; every component that enumerates the
//! matrix goes through this module.

use vstd::prelude::*;

verus! {

// The dimensions below are written out as numbers, so that the verifier
// reckons with them as with numbers; `lemma_dimensions` holds them to the two
// axes and to one another, so a change of the matrix that forgets one of them
// does not verify.

/// How many bounded queue sizes there are.
pub const SIZES: usize = 8;

/// How many contention levels there are.
pub const LEVELS: usize = 4;

/// The bounded queue sizes that every implementation is measured with, in
/// report order.
pub const BOUNDED_SIZES: [usize; SIZES] = [1, 2, 4, 8, 16, 32, 64, 128];

/// The numbers of competing background workers, in report order.
pub const CONTENTION_LEVELS: [usize; LEVELS] = [0, 1, 2, 4];

/// How many implementations are measured.
pub const IMPLEMENTATIONS: usize = 2;

/// Capacity configurations per implementation: the bounded sizes and the
/// unbounded case.
pub const CAPACITIES: usize = 9;

/// Columns of a report table: one per implementation and capacity.
pub const COLUMNS: usize = 18;

/// The one-shot shapes, each a slot of its own: the first slots. After them
/// come the slots of the sustained sends, one per contention level.
pub const ONESHOTS: usize = 2;

/// The first slot of the sustained receives, one per contention level.
pub const RECV_SLOT: usize = 6;

/// Slots: the trials of a slot share a shape and a contention level.
pub const SLOTS: usize = 10;

/// The size of the matrix.
pub const TRIALS: usize = 180;

/// Trials per implementation, which the driver runs in one go.
pub const RUN: usize = 90;

/// A channel implementation under test.
#[derive(Clone, Copy, Debug, PartialEq, Eq, Structural)]
pub enum Implementation {
    AsyncChannel,
    Flume,
}

/// The operation whose latency a trial measures.
#[derive(Clone, Copy, Debug, PartialEq, Eq, Structural)]
pub enum Direction {
    Send,
    Recv,
}

/// The workload that a trial puts on the channel.
#[derive(Clone, Copy, Debug, PartialEq, Eq, Structural)]
pub enum Shape {
    /// One send into a fresh channel.
    OneshotSend,
    /// One receive from a fresh channel that holds one value.
    OneshotRecv,
    /// Repeated sends while background workers use the same channel.
    SustainedSend,
    /// Repeated receives while background workers use the same channel.
    SustainedRecv,
}

/// The queue size that a channel is created with.
#[derive(Clone, Copy, Debug, PartialEq, Eq, Structural)]
pub enum Capacity {
    Bounded(usize),
    Unbounded,
}

/// The identity of one trial.
#[derive(Clone, Copy, Debug, PartialEq, Eq, Structural)]
pub struct Trial {
    pub implementation: Implementation,
    pub shape: Shape,
    pub capacity: Capacity,
    pub contention: usize,
}

impl Implementation {
    /// The position of the implementation in the report columns.
    pub open spec fn rank(self) -> int {
        match self {
            Implementation::AsyncChannel => 0,
            Implementation::Flume => 1,
        }
    }

    /// The implementation at `rank` in the report columns.
    pub open spec fn at(rank: int) -> Implementation {
        if rank == 0 {
            Implementation::AsyncChannel
        } else {
            Implementation::Flume
        }
    }

    /// The position of the implementation in the driver's run.
    pub open spec fn driver_rank(self) -> int {
        1 - self.rank()
    }
}

impl Shape {
    pub open spec fn is_oneshot(self) -> bool {
        self is OneshotSend || self is OneshotRecv
    }

    /// The operation that the shape measures.
    pub open spec fn spec_direction(self) -> Direction {
        match self {
            Shape::OneshotSend | Shape::SustainedSend => Direction::Send,
            Shape::OneshotRecv | Shape::SustainedRecv => Direction::Recv,
        }
    }

    #[verifier::when_used_as_spec(spec_direction)]
    pub fn direction(self) -> (direction: Direction)
        ensures
            direction == self.spec_direction(),
    {
        match self {
            Shape::OneshotSend | Shape::SustainedSend => Direction::Send,
            Shape::OneshotRecv | Shape::SustainedRecv => Direction::Recv,
        }
    }
}

/// Whether `size` is one of the declared bounded sizes.
pub open spec fn is_declared_size(size: usize) -> bool {
    exists|i: int| 0 <= i < SIZES && BOUNDED_SIZES[i] == size
}

/// The position of a declared bounded size among the declared sizes.
pub open spec fn size_rank(size: usize) -> int {
    choose|i: int| 0 <= i < SIZES && BOUNDED_SIZES[i] == size
}

/// Whether `level` is one of the declared contention levels.
pub open spec fn is_declared_level(level: usize) -> bool {
    exists|i: int| 0 <= i < LEVELS && CONTENTION_LEVELS[i] == level
}

/// The position of a declared contention level among the declared levels.
pub open spec fn level_rank(level: usize) -> int {
    choose|i: int| 0 <= i < LEVELS && CONTENTION_LEVELS[i] == level
}

impl Capacity {
    /// Whether the capacity is one that the matrix holds.
    pub open spec fn is_declared(self) -> bool {
        match self {
            Capacity::Bounded(size) => is_declared_size(size),
            Capacity::Unbounded => true,
        }
    }

    /// The position of a declared capacity within an implementation's
    /// columns: the bounded sizes in their declared order, then unbounded.
    pub open spec fn rank(self) -> int {
        match self {
            Capacity::Bounded(size) => size_rank(size),
            Capacity::Unbounded => SIZES as int,
        }
    }

    /// The capacity at `rank` within an implementation's columns.
    pub open spec fn at(rank: int) -> Capacity {
        if 0 <= rank < SIZES {
            Capacity::Bounded(BOUNDED_SIZES[rank])
        } else {
            Capacity::Unbounded
        }
    }
}

/// The shape of the trials in `slot`.
pub open spec fn slot_shape(slot: int) -> Shape {
    if slot == 0 {
        Shape::OneshotSend
    } else if slot == 1 {
        Shape::OneshotRecv
    } else if slot < RECV_SLOT {
        Shape::SustainedSend
    } else {
        Shape::SustainedRecv
    }
}

/// The contention level of the trials in `slot`.
pub open spec fn slot_contention(slot: int) -> usize {
    if slot < ONESHOTS {
        0
    } else if slot < RECV_SLOT {
        CONTENTION_LEVELS[slot - ONESHOTS]
    } else {
        CONTENTION_LEVELS[slot - RECV_SLOT]
    }
}

impl Trial {
    /// Whether the trial is a point of the matrix: its capacity and its
    /// contention level are declared ones, and a one-shot trial has no
    /// competing workers.
    pub open spec fn in_matrix(self) -> bool {
        &&& self.capacity.is_declared()
        &&& is_declared_level(self.contention)
        &&& self.shape.is_oneshot() ==> self.contention == 0
    }

    /// The column of the trial in a report table.
    pub open spec fn column(self) -> int {
        self.implementation.rank() * CAPACITIES + self.capacity.rank()
    }

    /// The slot of the trial: its table and, in a sustained table, its row.
    pub open spec fn slot(self) -> int {
        match self.shape {
            Shape::OneshotSend => 0,
            Shape::OneshotRecv => 1,
            Shape::SustainedSend => ONESHOTS + level_rank(self.contention),
            Shape::SustainedRecv => RECV_SLOT + level_rank(self.contention),
        }
    }

    /// The position of the trial in the aggregation's walk: slot by slot,
    /// and within a slot column by column.
    pub open spec fn pipeline_index(self) -> int {
        self.slot() * COLUMNS + self.column()
    }

    /// The position of the trial in the driver's run: implementation by
    /// implementation, then capacity by capacity; for each pair the two
    /// one-shot trials, then at each contention level the sustained send and
    /// the sustained receive.
    pub open spec fn driver_index(self) -> int {
        self.implementation.driver_rank() * RUN + self.capacity.rank() * SLOTS + match self.shape {
            Shape::OneshotSend => 0,
            Shape::OneshotRecv => 1,
            Shape::SustainedSend => ONESHOTS + 2 * level_rank(self.contention),
            Shape::SustainedRecv => ONESHOTS + 1 + 2 * level_rank(self.contention),
        }
    }
}

/// The trial at position `i` of the aggregation's walk.
pub open spec fn pipeline_trial(i: int) -> Trial {
    Trial {
        implementation: Implementation::at((i % COLUMNS as int) / CAPACITIES as int),
        shape: slot_shape(i / COLUMNS as int),
        capacity: Capacity::at((i % COLUMNS as int) % CAPACITIES as int),
        contention: slot_contention(i / COLUMNS as int),
    }
}

/// The trial at position `i` of the driver's run.
pub open spec fn driver_trial(i: int) -> Trial {
    let step = i % SLOTS as int;
    Trial {
        implementation: Implementation::at(1 - i / RUN as int),
        shape: if step == 0 {
            Shape::OneshotSend
        } else if step == 1 {
            Shape::OneshotRecv
        } else if (step - ONESHOTS) % 2 == 0 {
            Shape::SustainedSend
        } else {
            Shape::SustainedRecv
        },
        capacity: Capacity::at((i % RUN as int) / SLOTS as int),
        contention: if step < ONESHOTS {
            0
        } else {
            CONTENTION_LEVELS[(step - ONESHOTS) / 2]
        },
    }
}

/// Of one item per trial, in the order of the aggregation's walk, those of
/// `slot`: one per column.
pub open spec fn slot_cells<T>(cells: Seq<T>, slot: int) -> Seq<T> {
    cells.subrange(slot * COLUMNS as int, slot * COLUMNS as int + COLUMNS as int)
}

/// The whole matrix in the order of the aggregation's walk.
pub open spec fn pipeline_order() -> Seq<Trial> {
    Seq::new(TRIALS as nat, |i: int| pipeline_trial(i))
}

/// The whole matrix in the order of the driver's run.
pub open spec fn driver_order() -> Seq<Trial> {
    Seq::new(TRIALS as nat, |i: int| driver_trial(i))
}

impl Implementation {
    /// The implementation at `rank` in the report columns, if there is one.
    pub fn from_rank(rank: usize) -> (implementation: Option<Implementation>)
        ensures
            implementation == (if rank < IMPLEMENTATIONS {
                Some(Implementation::at(rank as int))
            } else {
                None
            }),
    {
        if rank == 0 {
            Some(Implementation::AsyncChannel)
        } else if rank == 1 {
            Some(Implementation::Flume)
        } else {
            None
        }
    }

    /// The position of the implementation in the report columns.
    pub fn position(self) -> (rank: usize)
        ensures
            rank == self.rank(),
    {
        match self {
            Implementation::AsyncChannel => 0,
            Implementation::Flume => 1,
        }
    }
}

impl Capacity {
    /// The bound that a channel of this capacity is created with: the size,
    /// or none for an unbounded channel.
    pub fn bound(self) -> (bound: Option<usize>)
        ensures
            bound == (match self {
                Capacity::Bounded(size) => Some(size),
                Capacity::Unbounded => None,
            }),
    {
        match self {
            Capacity::Bounded(size) => Some(size),
            Capacity::Unbounded => None,
        }
    }

    /// The capacity at `rank` within an implementation's columns, if there is
    /// one.
    pub fn from_rank(rank: usize) -> (capacity: Option<Capacity>)
        ensures
            capacity == (if rank < CAPACITIES {
                Some(Capacity::at(rank as int))
            } else {
                None
            }),
    {
        if rank < SIZES {
            Some(Capacity::Bounded(BOUNDED_SIZES[rank]))
        } else if rank == SIZES {
            Some(Capacity::Unbounded)
        } else {
            None
        }
    }

    /// The position of the capacity within an implementation's columns, if it
    /// is a declared one.
    pub fn position(self) -> (rank: Option<usize>)
        ensures
            rank is Some <==> self.is_declared(),
            rank matches Some(r) ==> r == self.rank() && r < CAPACITIES,
    {
        match self {
            Capacity::Unbounded => Some(SIZES),
            Capacity::Bounded(size) => {
                let mut i: usize = 0;
                while i < SIZES
                    invariant
                        i <= SIZES,
                        self == Capacity::Bounded(size),
                        forall|j: int| 0 <= j < i ==> BOUNDED_SIZES[j] != size,
                    decreases SIZES - i,
                {
                    if BOUNDED_SIZES[i] == size {
                        proof {
                            lemma_size_rank(i as int);
                        }
                        return Some(i);
                    }
                    i += 1;
                }
                None
            },
        }
    }
}

/// The position of a contention level among the declared levels, if it is a
/// declared one.
pub fn level_position(level: usize) -> (rank: Option<usize>)
    ensures
        rank is Some <==> is_declared_level(level),
        rank matches Some(r) ==> r == level_rank(level) && r < LEVELS,
{
    let mut i: usize = 0;
    while i < LEVELS
        invariant
            i <= LEVELS,
            forall|j: int| 0 <= j < i ==> CONTENTION_LEVELS[j] != level,
        decreases LEVELS - i,
    {
        if CONTENTION_LEVELS[i] == level {
            proof {
                lemma_level_rank(i as int);
            }
            return Some(i);
        }
        i += 1;
    }
    None
}

impl Trial {
    /// The position of the trial in the aggregation's walk, if the trial is a
    /// point of the matrix.
    pub fn position(&self) -> (position: Option<usize>)
        ensures
            position is Some <==> self.in_matrix(),
            position matches Some(p) ==> p == self.pipeline_index() && p < TRIALS,
    {
        let column = match self.capacity.position() {
            Some(rank) => self.implementation.position() * CAPACITIES + rank,
            None => {
                return None;
            },
        };
        let level = match level_position(self.contention) {
            Some(rank) => rank,
            None => {
                return None;
            },
        };
        let slot: usize = match self.shape {
            Shape::OneshotSend => {
                if self.contention != 0 {
                    return None;
                }
                0
            },
            Shape::OneshotRecv => {
                if self.contention != 0 {
                    return None;
                }
                1
            },
            Shape::SustainedSend => ONESHOTS + level,
            Shape::SustainedRecv => RECV_SLOT + level,
        };
        Some(slot * COLUMNS + column)
    }
}

/// The trial at `position` of the aggregation's walk.
pub(crate) fn walk_trial(position: usize) -> (trial: Trial)
    requires
        position < TRIALS,
    ensures
        trial == pipeline_trial(position as int),
{
    let slot = position / COLUMNS;
    let column = position % COLUMNS;
    let implementation = if column / CAPACITIES == 0 {
        Implementation::AsyncChannel
    } else {
        Implementation::Flume
    };
    let capacity = if column % CAPACITIES < SIZES {
        Capacity::Bounded(BOUNDED_SIZES[column % CAPACITIES])
    } else {
        Capacity::Unbounded
    };
    let shape = if slot == 0 {
        Shape::OneshotSend
    } else if slot == 1 {
        Shape::OneshotRecv
    } else if slot < RECV_SLOT {
        Shape::SustainedSend
    } else {
        Shape::SustainedRecv
    };
    let contention = if slot < ONESHOTS {
        0
    } else if slot < RECV_SLOT {
        CONTENTION_LEVELS[slot - ONESHOTS]
    } else {
        CONTENTION_LEVELS[slot - RECV_SLOT]
    };
    Trial { implementation, shape, capacity, contention }
}

/// The trial at `position` of the aggregation's walk, if the walk is that
/// long.
pub fn trial_at(position: usize) -> (trial: Option<Trial>)
    ensures
        trial == (if position < TRIALS {
            Some(pipeline_trial(position as int))
        } else {
            None
        }),
{
    if position < TRIALS {
        Some(walk_trial(position))
    } else {
        None
    }
}

/// The whole matrix in the order in which the aggregation walks through it.
pub fn pipeline_trials() -> (trials: Vec<Trial>)
    ensures
        trials@ == pipeline_order(),
{
    let mut trials: Vec<Trial> = Vec::new();
    let mut position: usize = 0;
    while position < TRIALS
        invariant
            position <= TRIALS,
            trials@ == Seq::new(position as nat, |i: int| pipeline_trial(i)),
        decreases TRIALS - position,
    {
        trials.push(walk_trial(position));
        position += 1;
        assert(trials@ =~= Seq::new(position as nat, |i: int| pipeline_trial(i)));
    }
    trials
}

/// The whole matrix in the order in which the driver runs it: for each
/// implementation and each capacity the one-shot send and the one-shot
/// receive, then at each contention level the sustained send and the
/// sustained receive.
pub fn driver_trials() -> (trials: Vec<Trial>)
    ensures
        trials@ == driver_order(),
{
    let mut trials: Vec<Trial> = Vec::new();
    let mut run: usize = 0;
    while run < IMPLEMENTATIONS
        invariant
            run <= IMPLEMENTATIONS,
            trials@ == Seq::new((run * RUN) as nat, |i: int| driver_trial(i)),
        decreases IMPLEMENTATIONS - run,
    {
        let implementation = if run == 0 {
            Implementation::Flume
        } else {
            Implementation::AsyncChannel
        };
        let mut rank: usize = 0;
        while rank < CAPACITIES
            invariant
                run < IMPLEMENTATIONS,
                rank <= CAPACITIES,
                implementation == Implementation::at(1 - run),
                trials@ == Seq::new((run * RUN + rank * SLOTS) as nat, |i: int| driver_trial(i)),
            decreases CAPACITIES - rank,
        {
            let capacity = if rank < SIZES {
                Capacity::Bounded(BOUNDED_SIZES[rank])
            } else {
                Capacity::Unbounded
            };
            let ghost base = run * RUN + rank * SLOTS;
            trials.push(Trial { implementation, shape: Shape::OneshotSend, capacity, contention: 0 });
            trials.push(Trial { implementation, shape: Shape::OneshotRecv, capacity, contention: 0 });
            assert(trials@ =~= Seq::new((base + ONESHOTS) as nat, |i: int| driver_trial(i)));
            let mut level: usize = 0;
            while level < LEVELS
                invariant
                    run < IMPLEMENTATIONS,
                    rank < CAPACITIES,
                    level <= LEVELS,
                    base == run * RUN + rank * SLOTS,
                    implementation == Implementation::at(1 - run),
                    capacity == Capacity::at(rank as int),
                    trials@ == Seq::new((base + ONESHOTS + level * 2) as nat, |i: int| driver_trial(i)),
                decreases LEVELS - level,
            {
                let contention = CONTENTION_LEVELS[level];
                trials.push(Trial { implementation, shape: Shape::SustainedSend, capacity, contention });
                trials.push(Trial { implementation, shape: Shape::SustainedRecv, capacity, contention });
                level += 1;
                assert(trials@ =~= Seq::new((base + ONESHOTS + level * 2) as nat, |i: int| driver_trial(i)));
            }
            rank += 1;
        }
        run += 1;
    }
    trials
}

/// The dimensions of the matrix fit its axes and one another.
pub proof fn lemma_dimensions()
    ensures
        BOUNDED_SIZES@.len() == SIZES,
        CONTENTION_LEVELS@.len() == LEVELS,
        CAPACITIES == SIZES + 1,
        COLUMNS == IMPLEMENTATIONS * CAPACITIES,
        RECV_SLOT == ONESHOTS + LEVELS,
        SLOTS == RECV_SLOT + LEVELS,
        TRIALS == SLOTS * COLUMNS,
        RUN == CAPACITIES * SLOTS,
{
}

/// The declared sizes and the declared levels each ascend strictly: a report
/// that follows their order lists the sizes, and the levels, from the
/// smallest to the largest, and none twice.
pub proof fn lemma_axes_ascend()
    ensures
        forall|i: int, j: int| 0 <= i < j < SIZES ==> BOUNDED_SIZES[i] < BOUNDED_SIZES[j],
        forall|i: int, j: int| 0 <= i < j < LEVELS ==> CONTENTION_LEVELS[i] < CONTENTION_LEVELS[j],
{
}

/// The declared sizes are pairwise different, so a declared size has one rank.
pub proof fn lemma_size_rank(i: int)
    requires
        0 <= i < SIZES,
    ensures
        is_declared_size(BOUNDED_SIZES[i]),
        size_rank(BOUNDED_SIZES[i]) == i,
{
    let size = BOUNDED_SIZES[i];
    let rank = size_rank(size);
    assert(0 <= rank < SIZES && BOUNDED_SIZES[rank] == size);
}

/// The declared levels are pairwise different, so a declared level has one
/// rank.
pub proof fn lemma_level_rank(i: int)
    requires
        0 <= i < LEVELS,
    ensures
        is_declared_level(CONTENTION_LEVELS[i]),
        level_rank(CONTENTION_LEVELS[i]) == i,
{
    let level = CONTENTION_LEVELS[i];
    let rank = level_rank(level);
    assert(0 <= rank < LEVELS && CONTENTION_LEVELS[rank] == level);
}

/// Every position of the aggregation's walk holds a trial of the matrix, and
/// that trial knows its position.
pub proof fn lemma_pipeline_trial_index(i: int)
    requires
        0 <= i < TRIALS,
    ensures
        pipeline_trial(i).in_matrix(),
        pipeline_trial(i).pipeline_index() == i,
        pipeline_trial(i).slot() == i / COLUMNS as int,
        pipeline_trial(i).column() == i % COLUMNS as int,
{
    let slot = i / COLUMNS as int;
    let rank = (i % COLUMNS as int) % CAPACITIES as int;
    if rank < SIZES {
        lemma_size_rank(rank);
    }
    lemma_level_rank(0);
    if ONESHOTS <= slot < RECV_SLOT {
        lemma_level_rank(slot - ONESHOTS);
    }
    if RECV_SLOT <= slot {
        lemma_level_rank(slot - RECV_SLOT);
    }
}

/// Every trial of the matrix has a position in the aggregation's walk, and
/// the walk holds that trial there.
pub proof fn lemma_pipeline_index_trial(trial: Trial)
    requires
        trial.in_matrix(),
    ensures
        0 <= trial.pipeline_index() < TRIALS,
        0 <= trial.slot() < SLOTS,
        0 <= trial.column() < COLUMNS,
        pipeline_trial(trial.pipeline_index()) == trial,
{
    let level = level_rank(trial.contention);
    assert(0 <= level < LEVELS && CONTENTION_LEVELS[level] == trial.contention);
    if let Capacity::Bounded(size) = trial.capacity {
        let rank = size_rank(size);
        assert(0 <= rank < SIZES && BOUNDED_SIZES[rank] == size);
    }
    if trial.shape.is_oneshot() {
        assert(trial.contention == 0);
    }
}

/// Every position of the driver's run holds a trial of the matrix, and that
/// trial knows its position.
pub proof fn lemma_driver_trial_index(i: int)
    requires
        0 <= i < TRIALS,
    ensures
        driver_trial(i).in_matrix(),
        driver_trial(i).driver_index() == i,
{
    let rank = (i % RUN as int) / SLOTS as int;
    let step = i % SLOTS as int;
    if rank < SIZES {
        lemma_size_rank(rank);
    }
    lemma_level_rank(0);
    if step >= ONESHOTS {
        lemma_level_rank((step - ONESHOTS) / 2);
    }
}

/// Every trial of the matrix has a position in the driver's run, and the run
/// holds that trial there.
pub proof fn lemma_driver_index_trial(trial: Trial)
    requires
        trial.in_matrix(),
    ensures
        0 <= trial.driver_index() < TRIALS,
        driver_trial(trial.driver_index()) == trial,
{
    let level = level_rank(trial.contention);
    assert(0 <= level < LEVELS && CONTENTION_LEVELS[level] == trial.contention);
    if let Capacity::Bounded(size) = trial.capacity {
        let rank = size_rank(size);
        assert(0 <= rank < SIZES && BOUNDED_SIZES[rank] == size);
    }
    if trial.shape.is_oneshot() {
        assert(trial.contention == 0);
    }
}

/// The driver's run is the matrix, each trial once: it has as many entries as
/// there are combinations of an implementation, a capacity, and a one-shot
/// shape or a sustained shape at a contention level; every
/// entry is a trial of the matrix; every trial of the matrix is an entry; and
/// no two entries are the same trial.
pub proof fn lemma_driver_order_is_matrix()
    ensures
        driver_order().len() == IMPLEMENTATIONS * (BOUNDED_SIZES@.len() + 1) * (ONESHOTS + 2
            * CONTENTION_LEVELS@.len()),
        forall|i: int| 0 <= i < TRIALS ==> (#[trigger] driver_order()[i]).in_matrix(),
        forall|trial: Trial| #[trigger]
            trial.in_matrix() ==> driver_order().contains(trial),
        driver_order().no_duplicates(),
{
    assert forall|i: int| 0 <= i < TRIALS implies (#[trigger] driver_order()[i]).in_matrix() by {
        lemma_driver_trial_index(i);
    }
    assert forall|trial: Trial| #[trigger] trial.in_matrix() implies driver_order().contains(
        trial,
    ) by {
        lemma_driver_index_trial(trial);
        assert(driver_order()[trial.driver_index()] == trial);
    }
    assert forall|i: int, j: int| 0 <= i < TRIALS && 0 <= j < TRIALS && i != j implies driver_order()[i]
        != driver_order()[j] by {
        lemma_driver_trial_index(i);
        lemma_driver_trial_index(j);
    }
}

/// The aggregation's walk is the matrix, each trial once, so it visits
/// exactly the trials that the driver runs.
pub proof fn lemma_pipeline_order_is_matrix()
    ensures
        pipeline_order().len() == driver_order().len(),
        forall|i: int| 0 <= i < TRIALS ==> (#[trigger] pipeline_order()[i]).in_matrix(),
        forall|trial: Trial| #[trigger]
            trial.in_matrix() ==> pipeline_order().contains(trial),
        pipeline_order().no_duplicates(),
        forall|trial: Trial|
            pipeline_order().contains(trial) <==> #[trigger] driver_order().contains(trial),
{
    lemma_driver_order_is_matrix();
    assert forall|i: int| 0 <= i < TRIALS implies (#[trigger] pipeline_order()[i]).in_matrix() by {
        lemma_pipeline_trial_index(i);
    }
    assert forall|trial: Trial| #[trigger] trial.in_matrix() implies pipeline_order().contains(
        trial,
    ) by {
        lemma_pipeline_index_trial(trial);
        assert(pipeline_order()[trial.pipeline_index()] == trial);
    }
    assert forall|i: int, j: int|
        0 <= i < TRIALS && 0 <= j < TRIALS && i != j implies pipeline_order()[i] != pipeline_order()[j] by {
        lemma_pipeline_trial_index(i);
        lemma_pipeline_trial_index(j);
    }
    assert forall|trial: Trial|
        pipeline_order().contains(trial) <==> #[trigger] driver_order().contains(trial) by {
        if pipeline_order().contains(trial) {
            let i = choose|i: int| 0 <= i < TRIALS && pipeline_order()[i] == trial;
            lemma_pipeline_trial_index(i);
        }
        if driver_order().contains(trial) {
            let i = choose|i: int| 0 <= i < TRIALS && driver_order()[i] == trial;
            lemma_driver_trial_index(i);
        }
    }
}

} // verus!
