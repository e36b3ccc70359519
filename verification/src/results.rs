//! The result tree: one cell per trial of the matrix.
//!
//! A cell holds the mean cost of one operation in a trial, as the text that
//! the reports show: a number. The tree exists only whole: it is built from
//! the cells of all trials at once, so a report can never show a gap.

use crate::matrix::{
    is_declared_level, lemma_pipeline_index_trial, level_position, level_rank, slot_cells,
    Direction, Implementation, Shape, Trial, CAPACITIES, COLUMNS, LEVELS, ONESHOTS, RECV_SLOT,
    SIZES, TRIALS,
};
use crate::number::{all_numbers, all_numeric, is_number};
use crate::text::texts;
use vstd::prelude::*;

verus! {

/// The cells of one implementation in one slot: one per bounded size, in the
/// declared order of the sizes, and one for the unbounded channel. The
/// declared sizes ascend, so the cells stand as a map from size to cell holds
/// them.
pub struct Channel {
    bounded: Vec<String>,
    unbounded: String,
}

/// The cells of one slot: those of each implementation.
pub struct Channels {
    async_channel: Channel,
    flume: Channel,
}

/// The cells of one sustained shape: those of each contention level, in the
/// declared order of the levels. The declared levels ascend, so the rows
/// stand as a map from level to row holds them.
pub struct Contentions {
    levels: Vec<Channels>,
}

/// The cells of the one-shot shapes.
struct Oneshot {
    send: Channels,
    recv: Channels,
}

/// The cells of the sustained shapes.
struct Mpmc {
    send: Contentions,
    recv: Contentions,
}

/// The cells of the whole matrix.
pub struct Results {
    oneshot: Oneshot,
    mpmc: Mpmc,
}

impl View for Channel {
    type V = Seq<Seq<char>>;

    /// The cells in column order: the bounded sizes, then unbounded.
    closed spec fn view(&self) -> Seq<Seq<char>> {
        Seq::new(
            CAPACITIES as nat,
            |i: int|
                if i < SIZES {
                    self.bounded@[i]@
                } else {
                    self.unbounded@
                },
        )
    }
}

impl View for Channels {
    type V = Seq<Seq<char>>;

    /// The cells in column order: one implementation after the other.
    closed spec fn view(&self) -> Seq<Seq<char>> {
        self.async_channel@ + self.flume@
    }
}

impl View for Contentions {
    type V = Seq<Seq<Seq<char>>>;

    /// The rows of cells, one row per contention level.
    closed spec fn view(&self) -> Seq<Seq<Seq<char>>> {
        Seq::new(self.levels@.len(), |i: int| self.levels@[i]@)
    }
}

impl View for Results {
    type V = Seq<Seq<char>>;

    /// The cells of all trials in the order of the aggregation's walk.
    closed spec fn view(&self) -> Seq<Seq<char>> {
        Seq::new(
            TRIALS as nat,
            |i: int|
                {
                    let slot = i / COLUMNS as int;
                    let column = i % COLUMNS as int;
                    if slot == 0 {
                        self.oneshot.send@[column]
                    } else if slot == 1 {
                        self.oneshot.recv@[column]
                    } else if slot < RECV_SLOT {
                        self.mpmc.send@[slot - ONESHOTS][column]
                    } else {
                        self.mpmc.recv@[slot - RECV_SLOT][column]
                    }
                },
        )
    }
}

impl Channel {
    #[verifier::type_invariant]
    spec fn well_formed(&self) -> bool {
        &&& self.bounded@.len() == SIZES
        &&& all_numbers(texts(self.bounded@))
        &&& is_number(self.unbounded@)
    }

    proof fn lemma_numbers(&self)
        requires
            self.well_formed(),
        ensures
            self@.len() == CAPACITIES,
            all_numbers(self@),
    {
        assert forall|i: int| 0 <= i < self@.len() implies is_number(#[trigger] self@[i]) by {
            if i < SIZES {
                assert(self@[i] == texts(self.bounded@)[i]);
            }
        }
    }

    fn from_cells(cells: &Vec<String>, from: usize) -> (channel: Channel)
        requires
            from + CAPACITIES <= cells.len(),
            all_numbers(texts(cells@)),
        ensures
            channel@ == texts(cells@).subrange(from as int, from + CAPACITIES),
    {
        let mut bounded: Vec<String> = Vec::new();
        let mut i: usize = 0;
        while i < SIZES
            invariant
                i <= SIZES,
                from + CAPACITIES <= cells.len(),
                all_numbers(texts(cells@)),
                bounded@.len() == i,
                forall|j: int| 0 <= j < i ==> bounded@[j]@ == cells@[from + j]@,
            decreases SIZES - i,
        {
            bounded.push(cells[from + i].clone());
            i += 1;
        }
        assert forall|j: int| 0 <= j < SIZES implies is_number(#[trigger] texts(bounded@)[j]) by {
            assert(texts(bounded@)[j] == texts(cells@)[from + j]);
        }
        assert(is_number(texts(cells@)[from + SIZES]));
        let channel = Channel { bounded, unbounded: cells[from + SIZES].clone() };
        assert(channel@ =~= texts(cells@).subrange(from as int, from + CAPACITIES));
        channel
    }

    /// The cell at `rank`: that of a bounded size by the rank of the size,
    /// that of the unbounded channel after them. Every cell is a number.
    pub fn cell(&self, rank: usize) -> (cell: Option<&String>)
        ensures
            cell is Some <==> rank < CAPACITIES,
            cell matches Some(text) ==> text@ == self@[rank as int],
            self@.len() == CAPACITIES,
            all_numbers(self@),
    {
        proof {
            use_type_invariant(self);
            self.lemma_numbers();
        }
        if rank < SIZES {
            Some(&self.bounded[rank])
        } else if rank == SIZES {
            Some(&self.unbounded)
        } else {
            None
        }
    }

    /// The cells in column order: the bounded sizes, then unbounded.
    pub fn values(&self) -> (cells: Vec<String>)
        ensures
            texts(cells@) == self@,
            cells@.len() == CAPACITIES,
    {
        proof {
            use_type_invariant(self);
        }
        let mut cells: Vec<String> = Vec::new();
        let mut i: usize = 0;
        while i < SIZES
            invariant
                i <= SIZES,
                self.bounded@.len() == SIZES,
                cells@.len() == i,
                forall|j: int| 0 <= j < i ==> cells@[j]@ == self.bounded@[j]@,
            decreases SIZES - i,
        {
            cells.push(self.bounded[i].clone());
            i += 1;
        }
        cells.push(self.unbounded.clone());
        assert(texts(cells@) =~= self@);
        cells
    }
}

impl Channels {
    fn from_cells(cells: &Vec<String>, slot: usize) -> (channels: Channels)
        requires
            (slot + 1) * COLUMNS <= cells.len(),
            all_numbers(texts(cells@)),
        ensures
            channels@ == slot_cells(texts(cells@), slot as int),
    {
        let from = slot * COLUMNS;
        let async_channel = Channel::from_cells(cells, from);
        let flume = Channel::from_cells(cells, from + CAPACITIES);
        let channels = Channels { async_channel, flume };
        assert(channels@ =~= slot_cells(texts(cells@), slot as int));
        channels
    }

    /// The cells of one implementation.
    pub fn channel(&self, implementation: Implementation) -> (channel: &Channel)
        ensures
            self@.len() == COLUMNS,
            channel@ == self@.subrange(
                implementation.rank() * CAPACITIES,
                implementation.rank() * CAPACITIES + CAPACITIES,
            ),
    {
        let channel = match implementation {
            Implementation::AsyncChannel => &self.async_channel,
            Implementation::Flume => &self.flume,
        };
        assert(channel@ =~= self@.subrange(
            implementation.rank() * CAPACITIES,
            implementation.rank() * CAPACITIES + CAPACITIES,
        ));
        channel
    }

    /// The cell in `column`. Every cell is a number.
    pub fn cell(&self, column: usize) -> (cell: Option<&String>)
        ensures
            cell is Some <==> column < COLUMNS,
            cell matches Some(text) ==> text@ == self@[column as int],
            self@.len() == COLUMNS,
            all_numbers(self@),
    {
        proof {
            let front = self.async_channel@;
            let back = self.flume@;
            use_type_invariant(&self.async_channel);
            use_type_invariant(&self.flume);
            self.async_channel.lemma_numbers();
            self.flume.lemma_numbers();
            assert forall|i: int| 0 <= i < self@.len() implies is_number(#[trigger] self@[i]) by {
                if i < front.len() {
                    assert(self@[i] == front[i]);
                } else {
                    assert(self@[i] == back[i - front.len()]);
                }
            }
        }
        if column < CAPACITIES {
            self.async_channel.cell(column)
        } else {
            self.flume.cell(column - CAPACITIES)
        }
    }

    /// The cells in column order.
    pub fn values(&self) -> (cells: Vec<String>)
        ensures
            texts(cells@) == self@,
            cells@.len() == COLUMNS,
    {
        let mut cells = self.async_channel.values();
        let mut rest = self.flume.values();
        let ghost front = cells@;
        let ghost back = rest@;
        cells.append(&mut rest);
        assert(texts(cells@) =~= texts(front) + texts(back));
        cells
    }
}

impl Contentions {
    #[verifier::type_invariant]
    spec fn well_formed(&self) -> bool {
        self.levels@.len() == LEVELS
    }

    fn from_cells(cells: &Vec<String>, first: usize) -> (contentions: Contentions)
        requires
            (first + LEVELS) * COLUMNS <= cells.len(),
            all_numbers(texts(cells@)),
        ensures
            contentions@.len() == LEVELS,
            forall|rank: int|
                0 <= rank < LEVELS ==> #[trigger] contentions@[rank] == slot_cells(
                    texts(cells@),
                    first + rank,
                ),
    {
        let mut levels: Vec<Channels> = Vec::new();
        let mut i: usize = 0;
        while i < LEVELS
            invariant
                i <= LEVELS,
                (first + LEVELS) * COLUMNS <= cells.len(),
                all_numbers(texts(cells@)),
                levels@.len() == i,
                forall|rank: int|
                    0 <= rank < i ==> (#[trigger] levels@[rank])@ == slot_cells(
                        texts(cells@),
                        first + rank,
                    ),
            decreases LEVELS - i,
        {
            levels.push(Channels::from_cells(cells, first + i));
            i += 1;
        }
        Contentions { levels }
    }

    /// The row of the contention level `level`, if the level is a declared
    /// one.
    pub fn get(&self, level: usize) -> (row: Option<&Channels>)
        ensures
            row is Some <==> is_declared_level(level),
            row matches Some(channels) ==> channels@ == self@[level_rank(level)],
            self@.len() == LEVELS,
    {
        proof {
            use_type_invariant(self);
        }
        match level_position(level) {
            Some(rank) => Some(&self.levels[rank]),
            None => None,
        }
    }
}

impl Results {
    pub(crate) fn assemble(cells: &Vec<String>) -> (tree: Results)
        requires
            cells@.len() == TRIALS,
            all_numbers(texts(cells@)),
        ensures
            tree@ == texts(cells@),
    {
        let oneshot = Oneshot {
            send: Channels::from_cells(cells, 0),
            recv: Channels::from_cells(cells, 1),
        };
        let mpmc = Mpmc {
            send: Contentions::from_cells(cells, ONESHOTS),
            recv: Contentions::from_cells(cells, RECV_SLOT),
        };
        let tree = Results { oneshot, mpmc };
        assert(tree@ =~= texts(cells@)) by {
            assert forall|i: int| 0 <= i < TRIALS implies tree@[i] == texts(cells@)[i] by {
                let slot = i / COLUMNS as int;
                if ONESHOTS <= slot < RECV_SLOT {
                    assert(tree.mpmc.send@[slot - ONESHOTS] == slot_cells(
                        texts(cells@),
                        ONESHOTS + (slot - ONESHOTS),
                    ));
                } else if RECV_SLOT <= slot {
                    assert(tree.mpmc.recv@[slot - RECV_SLOT] == slot_cells(
                        texts(cells@),
                        RECV_SLOT + (slot - RECV_SLOT),
                    ));
                }
            }
        }
        tree
    }

    /// Builds the tree from the cells of all trials, given in the order of
    /// the aggregation's walk. There is no tree of fewer or more cells, and
    /// none of a cell that is no number.
    pub fn from_cells(cells: &Vec<String>) -> (results: Option<Results>)
        ensures
            results is Some <==> cells@.len() == TRIALS && all_numbers(texts(cells@)),
            results matches Some(tree) ==> tree@ == texts(cells@),
    {
        if cells.len() == TRIALS && all_numeric(cells) {
            Some(Results::assemble(cells))
        } else {
            None
        }
    }

    /// The cells of a one-shot shape, by the operation that it measures.
    pub fn oneshot(&self, measured: Direction) -> (channels: &Channels)
        ensures
            self@.len() == TRIALS,
            channels@ == slot_cells(
                self@,
                match measured {
                    Direction::Send => 0int,
                    Direction::Recv => 1int,
                },
            ),
    {
        let channels = match measured {
            Direction::Send => &self.oneshot.send,
            Direction::Recv => &self.oneshot.recv,
        };
        assert(channels@ =~= slot_cells(
            self@,
            match measured {
                Direction::Send => 0int,
                Direction::Recv => 1int,
            },
        ));
        channels
    }

    /// The cells of a sustained shape, by the operation that it measures.
    pub fn sustained(&self, measured: Direction) -> (contentions: &Contentions)
        ensures
            self@.len() == TRIALS,
            contentions@.len() == LEVELS,
            forall|rank: int|
                0 <= rank < LEVELS ==> #[trigger] contentions@[rank] == slot_cells(
                    self@,
                    match measured {
                        Direction::Send => ONESHOTS + rank,
                        Direction::Recv => RECV_SLOT + rank,
                    },
                ),
    {
        let contentions = match measured {
            Direction::Send => &self.mpmc.send,
            Direction::Recv => &self.mpmc.recv,
        };
        proof {
            use_type_invariant(contentions);
        }
        assert forall|rank: int| 0 <= rank < LEVELS implies #[trigger] contentions@[rank]
            == slot_cells(
            self@,
            match measured {
                Direction::Send => ONESHOTS + rank,
                Direction::Recv => RECV_SLOT + rank,
            },
        ) by {
            assert(contentions@[rank] =~= slot_cells(
                self@,
                match measured {
                    Direction::Send => ONESHOTS + rank,
                    Direction::Recv => RECV_SLOT + rank,
                },
            ));
        }
        contentions
    }

    /// The cell of `trial`, if the trial is a point of the matrix. Every cell
    /// is a number.
    pub fn cell(&self, trial: &Trial) -> (cell: Option<&String>)
        ensures
            cell is Some <==> trial.in_matrix(),
            cell matches Some(text) ==> text@ == self@[trial.pipeline_index()] && is_number(text@),
    {
        let column = match trial.position() {
            Some(position) => position % COLUMNS,
            None => {
                return None;
            },
        };
        proof {
            lemma_pipeline_index_trial(*trial);
        }
        let channels = match trial.shape {
            Shape::OneshotSend => &self.oneshot.send,
            Shape::OneshotRecv => &self.oneshot.recv,
            Shape::SustainedSend => {
                proof {
                    use_type_invariant(&self.mpmc.send);
                }
                match level_position(trial.contention) {
                    Some(rank) => &self.mpmc.send.levels[rank],
                    None => {
                        return None;
                    },
                }
            },
            Shape::SustainedRecv => {
                proof {
                    use_type_invariant(&self.mpmc.recv);
                }
                match level_position(trial.contention) {
                    Some(rank) => &self.mpmc.recv.levels[rank],
                    None => {
                        return None;
                    },
                }
            },
        };
        channels.cell(column)
    }
}

} // verus!
