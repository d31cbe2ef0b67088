//! The scan loop as a state machine.
//!
//! The scanner decides; its caller acts. In every phase the scanner has one
//! action pending. The caller performs it on the hardware, hands back what
//! came of it as an event, and is told the next action. One pass over the
//! matrix strobes the rows in order; under each row it lets the line
//! settle, samples the columns in order, and for every press announces the
//! key, sends its pulse train and waits for the send to complete before it
//! goes on to the next column.
//!
//! The transmit channel has one owner at a time. It is handed to the
//! hardware by the action `Transmit`, is in flight until the action `Await`
//! has completed, and is then idle again. A fault halts the scanner for good.

use vstd::prelude::*;
use crate::debounce::{spec_changes, spec_idle_levels, spec_store, Matrix};
use crate::layout::{is_cell, scan_index, spec_scan_index, spec_symbol, symbol, COLS, KEYS, ROWS};
use crate::pulse::{encode, spec_train, Train};

verus! {

/// How long a strobed row is held before its columns are read, in
/// milliseconds.
pub const SETTLE_MILLIS: u32 = 10;

/// Where the scanner stands in its pass over the matrix.
#[derive(Clone, Copy, Debug, PartialEq, Eq)]
pub enum Phase {
    /// No row is driven; `row` is the next to be strobed.
    Idle { row: usize },
    /// `row` is driven and the line is settling.
    Settling { row: usize },
    /// `row` is driven and `column` is being read.
    Sampling { row: usize, column: usize },
    /// The key at (`row`, `column`) went down and is being announced.
    Announcing { row: usize, column: usize },
    /// The train of the key at (`row`, `column`) is being handed to the idle
    /// transmit channel.
    Sending { row: usize, column: usize },
    /// The train of the key at (`row`, `column`) is in flight.
    InFlight { row: usize, column: usize },
    /// All columns of `row` are read and the row is being released.
    Releasing { row: usize },
    /// A fault has stopped the scanner. Nothing leaves this phase.
    Halted,
}

/// What came of the action that the scanner had pending.
#[derive(Clone, Copy, Debug, PartialEq, Eq)]
pub enum Event {
    /// The action was carried out.
    Done,
    /// The level that was read from the sampled column.
    Level(bool),
    /// The hardware failed.
    Fault,
}

/// What the caller is to do next.
#[derive(Clone, Copy, Debug, PartialEq, Eq)]
pub enum Action {
    /// Drive the line of `row` high.
    Strobe { row: usize },
    /// Wait for `millis` milliseconds.
    Settle { millis: u32 },
    /// Read the line of `column` and answer with `Event::Level`.
    Sample { column: usize },
    /// Report that the key with `symbol` went down.
    Announce { symbol: char },
    /// Hand `train` to the idle transmit channel.
    Transmit { train: Train },
    /// Block until the transmission in flight has completed.
    Await,
    /// Drive the line of `row` low.
    Release { row: usize },
    /// Stop for good.
    Halt,
}

impl Phase {
    /// Whether the rows and columns that the phase names are those of cells.
    pub open spec fn valid(self) -> bool {
        match self {
            Phase::Idle { row } => row < ROWS,
            Phase::Settling { row } => row < ROWS,
            Phase::Sampling { row, column } => is_cell(row as int, column as int),
            Phase::Announcing { row, column } => is_cell(row as int, column as int),
            Phase::Sending { row, column } => is_cell(row as int, column as int),
            Phase::InFlight { row, column } => is_cell(row as int, column as int),
            Phase::Releasing { row } => row < ROWS,
            Phase::Halted => true,
        }
    }

    /// Whether the transmit channel is with the hardware: a train has been
    /// sent and its completion has not been waited for yet.
    pub open spec fn channel_in_flight(self) -> bool {
        self is InFlight
    }
}

/// The scanner as a mathematical value: its phase and the stored level of
/// every cell, by scan index.
pub struct State {
    pub phase: Phase,
    pub levels: Seq<bool>,
}

impl State {
    /// Whether the phase is valid and there is one level for each cell.
    pub open spec fn valid(self) -> bool {
        self.phase.valid() && self.levels.len() == KEYS
    }
}

/// The state at power-up: every cell idle, row 0 next to be strobed.
pub open spec fn spec_boot() -> State {
    State { phase: Phase::Idle { row: 0 }, levels: spec_idle_levels() }
}

/// The row that is strobed after `row`: the next one, and the first after
/// the last.
pub open spec fn spec_next_row(row: usize) -> usize {
    ((row + 1) % (ROWS as int)) as usize
}

/// The phase that follows the work on the cell at (`row`, `column`): the
/// next column of the row is read, and after the last the row is released.
pub open spec fn spec_after_cell(row: usize, column: usize) -> Phase {
    if column + 1 < COLS {
        Phase::Sampling { row, column: (column + 1) as usize }
    } else {
        Phase::Releasing { row }
    }
}

/// The phase that follows `phase` when its action is done, for the phases
/// whose action reads nothing.
pub open spec fn spec_advance(phase: Phase) -> Phase {
    match phase {
        Phase::Idle { row } => Phase::Settling { row },
        Phase::Settling { row } => Phase::Sampling { row, column: 0 },
        Phase::Announcing { row, column } => Phase::Sending { row, column },
        Phase::Sending { row, column } => Phase::InFlight { row, column },
        Phase::InFlight { row, column } => spec_after_cell(row, column),
        Phase::Releasing { row } => Phase::Idle { row: spec_next_row(row) },
        _ => Phase::Halted,
    }
}

/// The state once `level` has been read from the cell at (`row`,
/// `column`): the level is stored, and a press is announced.
pub open spec fn spec_sampled(levels: Seq<bool>, row: usize, column: usize, level: bool) -> State {
    let cell = spec_scan_index(row as int, column as int);
    State {
        phase: if spec_changes(levels, cell, level) && level {
            Phase::Announcing { row, column }
        } else {
            spec_after_cell(row, column)
        },
        levels: spec_store(levels, cell, level),
    }
}

/// The fail-stop transition: the levels stay, the phase is `Halted`.
pub open spec fn spec_halt(state: State) -> State {
    State { phase: Phase::Halted, levels: state.levels }
}

/// The state that follows `state` on `event`.
///
/// A sampling phase takes a level, every other phase but `Halted` takes
/// `Done`. Anything else is a fault and halts the scanner.
pub open spec fn spec_step(state: State, event: Event) -> State {
    match (state.phase, event) {
        (Phase::Halted, _) => spec_halt(state),
        (Phase::Sampling { row, column }, Event::Level(level)) => spec_sampled(
            state.levels,
            row,
            column,
            level,
        ),
        (Phase::Sampling { .. }, _) => spec_halt(state),
        (_, Event::Done) => State { phase: spec_advance(state.phase), levels: state.levels },
        (_, _) => spec_halt(state),
    }
}

/// The action that is pending in `phase`.
pub open spec fn spec_pending(phase: Phase) -> Action {
    match phase {
        Phase::Idle { row } => Action::Strobe { row },
        Phase::Settling { .. } => Action::Settle { millis: SETTLE_MILLIS },
        Phase::Sampling { column, .. } => Action::Sample { column },
        Phase::Announcing { row, column } => Action::Announce {
            symbol: spec_symbol(spec_scan_index(row as int, column as int)),
        },
        Phase::Sending { row, column } => Action::Transmit {
            train: spec_train(spec_scan_index(row as int, column as int)),
        },
        Phase::InFlight { .. } => Action::Await,
        Phase::Releasing { row } => Action::Release { row },
        Phase::Halted => Action::Halt,
    }
}

/// The row that is strobed after `row`.
pub fn next_row(row: usize) -> (next: usize)
    requires
        row < ROWS,
    ensures
        next == spec_next_row(row),
        next < ROWS,
{
    if row + 1 < ROWS {
        row + 1
    } else {
        0
    }
}

/// The phase that follows the work on the cell at (`row`, `column`).
pub fn after_cell(row: usize, column: usize) -> (phase: Phase)
    requires
        is_cell(row as int, column as int),
    ensures
        phase == spec_after_cell(row, column),
        phase.valid(),
{
    if column + 1 < COLS {
        Phase::Sampling { row, column: column + 1 }
    } else {
        Phase::Releasing { row }
    }
}

/// The scan loop's state: where the pass stands, and the debounce matrix.
///
/// Its view is a [`State`]. There is one scanner for one keypad: it stands
/// for the rows it has driven and the channel it has handed out, and is not
/// copied.
#[derive(Debug, PartialEq, Eq)]
pub struct Scanner {
    phase: Phase,
    matrix: Matrix,
}

impl View for Scanner {
    type V = State;

    closed spec fn view(&self) -> State {
        State { phase: self.phase, levels: self.matrix@ }
    }
}

impl Scanner {
    #[verifier::type_invariant]
    spec fn phase_is_valid(self) -> bool {
        self.phase.valid()
    }

    /// A scanner at power-up: every cell idle, row 0 next to be strobed.
    pub fn new() -> (scanner: Scanner)
        ensures
            scanner@ == spec_boot(),
            scanner@.valid(),
    {
        Scanner { phase: Phase::Idle { row: 0 }, matrix: Matrix::new() }
    }

    /// Where the scanner stands.
    pub fn phase(&self) -> (phase: Phase)
        ensures
            phase == self@.phase,
            phase.valid(),
    {
        proof {
            use_type_invariant(self);
        }
        self.phase
    }

    /// The debounce matrix.
    pub fn matrix(&self) -> (matrix: &Matrix)
        ensures
            matrix@ == self@.levels,
    {
        &self.matrix
    }

    /// Whether a fault has stopped the scanner.
    pub fn is_halted(&self) -> (halted: bool)
        ensures
            halted == (self@.phase is Halted),
    {
        match self.phase {
            Phase::Halted => true,
            _ => false,
        }
    }

    /// The action that the caller is to perform now.
    pub fn pending(&self) -> (action: Action)
        ensures
            action == spec_pending(self@.phase),
    {
        proof {
            use_type_invariant(self);
        }
        match self.phase {
            Phase::Idle { row } => Action::Strobe { row },
            Phase::Settling { .. } => Action::Settle { millis: SETTLE_MILLIS },
            Phase::Sampling { column, .. } => Action::Sample { column },
            Phase::Announcing { row, column } => Action::Announce { symbol: symbol(row, column) },
            Phase::Sending { row, column } => Action::Transmit {
                train: encode(scan_index(row, column)),
            },
            Phase::InFlight { .. } => Action::Await,
            Phase::Releasing { row } => Action::Release { row },
            Phase::Halted => Action::Halt,
        }
    }

    /// Takes what came of the pending action and returns the action that is
    /// pending next.
    pub fn step(&mut self, event: Event) -> (action: Action)
        ensures
            final(self)@ == spec_step(old(self)@, event),
            final(self)@.valid(),
            action == spec_pending(final(self)@.phase),
    {
        proof {
            use_type_invariant(&*self);
            self.matrix.lemma_len();
        }
        let next: Option<Phase> = match (self.phase, event) {
            (Phase::Halted, _) => None,
            (Phase::Sampling { row, column }, Event::Level(level)) => {
                let mut matrix = self.matrix;
                let seen = matrix.observe(row, column, level);
                self.matrix = matrix;
                match seen {
                    Some(transition) => if transition.is_press() {
                        Some(Phase::Announcing { row, column })
                    } else {
                        Some(after_cell(row, column))
                    },
                    None => Some(after_cell(row, column)),
                }
            },
            (Phase::Sampling { .. }, _) => None,
            (Phase::Idle { row }, Event::Done) => Some(Phase::Settling { row }),
            (Phase::Settling { row }, Event::Done) => Some(Phase::Sampling { row, column: 0 }),
            (Phase::Announcing { row, column }, Event::Done) => Some(
                Phase::Sending { row, column },
            ),
            (Phase::Sending { row, column }, Event::Done) => Some(Phase::InFlight { row, column }),
            (Phase::InFlight { row, column }, Event::Done) => Some(after_cell(row, column)),
            (Phase::Releasing { row }, Event::Done) => Some(Phase::Idle { row: next_row(row) }),
            (_, _) => None,
        };
        match next {
            Some(phase) => {
                self.phase = phase;
                self.pending()
            },
            None => panic(self),
        }
    }
}

/// The fail-stop transition. Whatever the scanner was doing, it is halted
/// for good: the only action left is `Halt`.
pub fn panic(scanner: &mut Scanner) -> (action: Action)
    ensures
        final(scanner)@ == spec_halt(old(scanner)@),
        final(scanner)@.valid(),
        action == Action::Halt,
{
    proof {
        scanner.matrix.lemma_len();
    }
    scanner.phase = Phase::Halted;
    Action::Halt
}

} // verus!
