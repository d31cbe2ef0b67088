//! Runs of the scanner: what holds of every sequence of events.
//!
//! A run starts in a state and takes the events in order. Observation `k` of
//! a run is the state after the first `k` events and the action pending in
//! it, which is the action that event `k` answers.

use vstd::prelude::*;
use crate::debounce::{fires, in_range, replay, spec_changes, Observation};
use crate::layout::{spec_scan_index, spec_symbol, COLS};
use crate::pulse::spec_train;
use crate::scan::{
    spec_after_cell,
    spec_boot,
    spec_next_row,
    spec_pending,
    spec_step,
    Action,
    Event,
    Phase,
    State,
    SETTLE_MILLIS,
};

verus! {

/// The state after the events of `events`, taken in order from `state`.
pub open spec fn run(state: State, events: Seq<Event>) -> State
    decreases events.len(),
{
    if events.len() == 0 {
        state
    } else {
        spec_step(run(state, events.drop_last()), events.last())
    }
}

/// The state after the first `k` events.
pub open spec fn state_at(state: State, events: Seq<Event>, k: int) -> State {
    run(state, events.take(k))
}

/// The phase after the first `k` events.
pub open spec fn phase_at(state: State, events: Seq<Event>, k: int) -> Phase {
    state_at(state, events, k).phase
}

/// The action pending after the first `k` events.
pub open spec fn action_at(state: State, events: Seq<Event>, k: int) -> Action {
    spec_pending(phase_at(state, events, k))
}

/// The cell that is sampled after the cell at (`row`, `column`): the next
/// of the row, and after the last of a row the first of the next row.
pub open spec fn spec_next_cell(row: usize, column: usize) -> (usize, usize) {
    if column + 1 < COLS {
        (row, (column + 1) as usize)
    } else {
        (spec_next_row(row), 0)
    }
}

/// A step from a valid state gives a valid state.
pub proof fn lemma_step_valid(state: State, event: Event)
    requires
        state.valid(),
    ensures
        spec_step(state, event).valid(),
{
}

/// A run starts where it starts.
pub proof fn lemma_state_at_start(state: State, events: Seq<Event>)
    ensures
        state_at(state, events, 0) == state,
{
    assert(events.take(0) =~= Seq::<Event>::empty());
}

/// Each event takes the run one step further.
pub proof fn lemma_state_at_next(state: State, events: Seq<Event>, k: int)
    requires
        0 <= k < events.len(),
    ensures
        state_at(state, events, k + 1) == spec_step(state_at(state, events, k), events[k]),
{
    assert(events.take(k + 1).drop_last() =~= events.take(k));
}

/// Every state of a run from a valid state is valid.
pub proof fn lemma_state_at_valid(state: State, events: Seq<Event>, k: int)
    requires
        state.valid(),
        0 <= k <= events.len(),
    ensures
        state_at(state, events, k).valid(),
    decreases k,
{
    if k == 0 {
        lemma_state_at_start(state, events);
    } else {
        lemma_state_at_valid(state, events, k - 1);
        lemma_state_at_next(state, events, k - 1);
        lemma_step_valid(state_at(state, events, k - 1), events[k - 1]);
    }
}

/// Nothing leaves `Halted`. Once a run is halted, the state stays as it is
/// whatever the events are, and the only action pending is `Halt`: no line
/// is driven or read and nothing is sent.
pub proof fn lemma_halted_is_final(state: State, events: Seq<Event>, i: int, j: int)
    requires
        0 <= i <= j <= events.len(),
        phase_at(state, events, i) is Halted,
    ensures
        state_at(state, events, j) == state_at(state, events, i),
        action_at(state, events, j) == Action::Halt,
    decreases j - i,
{
    if i < j {
        lemma_halted_is_final(state, events, i, j - 1);
        lemma_state_at_next(state, events, j - 1);
    }
}

/// A scanner that is halted before its first event never acts.
pub proof fn lemma_halted_at_start(state: State, events: Seq<Event>, k: int)
    requires
        state.phase is Halted,
        0 <= k <= events.len(),
    ensures
        state_at(state, events, k) == state,
        action_at(state, events, k) == Action::Halt,
{
    lemma_state_at_start(state, events);
    lemma_halted_is_final(state, events, 0, k);
}

/// Whether `phase` is part of the work under the strobed row `row`.
spec fn under_row(phase: Phase, row: usize) -> bool {
    match phase {
        Phase::Settling { row: r } => r == row,
        Phase::Sampling { row: r, .. } => r == row,
        Phase::Announcing { row: r, .. } => r == row,
        Phase::Sending { row: r, .. } => r == row,
        Phase::InFlight { row: r, .. } => r == row,
        Phase::Releasing { row: r } => r == row,
        _ => false,
    }
}

/// From the strobe of `row` at observation `i` up to the next strobe, a run
/// is halted or at work under `row`; the next strobe is that of the row
/// after `row`.
proof fn lemma_until_next_strobe(state: State, events: Seq<Event>, i: int, k: int, row: usize)
    requires
        state.valid(),
        0 <= i < k <= events.len(),
        phase_at(state, events, i) == (Phase::Idle { row }),
        forall|m: int| i < m < k ==> !(#[trigger] phase_at(state, events, m) is Idle),
    ensures
        ({
            let phase = phase_at(state, events, k);
            phase is Halted || under_row(phase, row) || (phase == (Phase::Idle {
                row: spec_next_row(row),
            }) && phase_at(state, events, k - 1) == (Phase::Releasing { row }) && events[k - 1]
                == Event::Done)
        }),
    decreases k - i,
{
    lemma_state_at_next(state, events, k - 1);
    lemma_state_at_valid(state, events, k - 1);
    if i < k - 1 {
        lemma_until_next_strobe(state, events, i, k - 1, row);
        assert(!(phase_at(state, events, k - 1) is Idle));
    }
}

/// Rows are strobed in cyclic order, one at a time. If a run strobes `row`
/// at observation `i` and `next` at observation `j`, and no row in between,
/// then `next` is the row after `row`: 0, 1, 2, 3, 0, 1, ... The last thing
/// done before the strobe of `next` was the release of `row`.
pub proof fn lemma_rows_in_cyclic_order(
    state: State,
    events: Seq<Event>,
    i: int,
    j: int,
    row: usize,
    next: usize,
)
    requires
        state.valid(),
        0 <= i < j <= events.len(),
        action_at(state, events, i) == (Action::Strobe { row }),
        action_at(state, events, j) == (Action::Strobe { row: next }),
        forall|m: int| i < m < j ==> !(#[trigger] action_at(state, events, m) is Strobe),
    ensures
        next == spec_next_row(row),
        action_at(state, events, j - 1) == (Action::Release { row }),
        events[j - 1] == Event::Done,
{
    assert forall|m: int| i < m < j implies !(#[trigger] phase_at(state, events, m) is Idle) by {
        assert(!(action_at(state, events, m) is Strobe));
    }
    lemma_until_next_strobe(state, events, i, j, row);
}

/// A run from power-up strobes row 0 first.
pub proof fn lemma_first_strobe(events: Seq<Event>)
    ensures
        action_at(spec_boot(), events, 0) == (Action::Strobe { row: 0 }),
{
    lemma_state_at_start(spec_boot(), events);
}

/// Whether `phase` lies between the sampling of the cell at (`row`,
/// `column`) and the sampling of the next cell.
spec fn past_cell(phase: Phase, row: usize, column: usize) -> bool {
    ||| phase == (Phase::Announcing { row, column })
    ||| phase == (Phase::Sending { row, column })
    ||| phase == (Phase::InFlight { row, column })
    ||| column + 1 == COLS && (phase == (Phase::Releasing { row }) || phase == (Phase::Idle {
        row: spec_next_row(row),
    }) || phase == (Phase::Settling { row: spec_next_row(row) }))
}

/// From the sampling of a cell at observation `i` up to the next sampling,
/// a run is halted or between the two; the next sampling is that of the
/// next cell.
proof fn lemma_until_next_sample(
    state: State,
    events: Seq<Event>,
    i: int,
    k: int,
    row: usize,
    column: usize,
)
    requires
        state.valid(),
        0 <= i < k <= events.len(),
        phase_at(state, events, i) == (Phase::Sampling { row, column }),
        forall|m: int| i < m < k ==> !(#[trigger] phase_at(state, events, m) is Sampling),
    ensures
        ({
            let phase = phase_at(state, events, k);
            let cell = spec_next_cell(row, column);
            phase is Halted || past_cell(phase, row, column) || phase == (Phase::Sampling {
                row: cell.0,
                column: cell.1,
            })
        }),
    decreases k - i,
{
    lemma_state_at_next(state, events, k - 1);
    lemma_state_at_valid(state, events, k - 1);
    if i < k - 1 {
        lemma_until_next_sample(state, events, i, k - 1, row, column);
        assert(!(phase_at(state, events, k - 1) is Sampling));
    }
}

/// Cells are sampled in scan order. If a run samples the cell at (`row`,
/// `column`) at observation `i` and samples again at observation `j`, and
/// not in between, then at `j` it samples the next cell: within a row the
/// columns 0, 1, 2, and after the last column the first column of the next
/// row.
pub proof fn lemma_cells_in_scan_order(
    state: State,
    events: Seq<Event>,
    i: int,
    j: int,
    row: usize,
    column: usize,
)
    requires
        state.valid(),
        0 <= i < j <= events.len(),
        phase_at(state, events, i) == (Phase::Sampling { row, column }),
        action_at(state, events, j) is Sample,
        forall|m: int| i < m < j ==> !(#[trigger] action_at(state, events, m) is Sample),
    ensures
        phase_at(state, events, j) == (Phase::Sampling {
            row: spec_next_cell(row, column).0,
            column: spec_next_cell(row, column).1,
        }),
        action_at(state, events, j) == (Action::Sample { column: spec_next_cell(row, column).1 }),
{
    assert forall|m: int| i < m < j implies !(#[trigger] phase_at(state, events, m) is Sampling) by {
        assert(!(action_at(state, events, m) is Sample));
    }
    lemma_until_next_sample(state, events, i, j, row, column);
}

/// The first cell sampled under a strobed row is its column 0, read when
/// the line has settled. If a run strobes `row` at observation `i` and
/// samples at observation `j`, and neither strobes nor samples in between,
/// then at `j` it samples the cell at (`row`, 0), and the one thing done
/// between the two was to wait for the settle delay.
pub proof fn lemma_first_sample_under_row(
    state: State,
    events: Seq<Event>,
    i: int,
    j: int,
    row: usize,
)
    requires
        state.valid(),
        0 <= i < j <= events.len(),
        action_at(state, events, i) == (Action::Strobe { row }),
        action_at(state, events, j) is Sample,
        forall|m: int|
            i < m < j ==> !(#[trigger] action_at(state, events, m) is Sample) && !(action_at(
                state,
                events,
                m,
            ) is Strobe),
    ensures
        phase_at(state, events, j) == (Phase::Sampling { row, column: 0 }),
        j == i + 2,
        action_at(state, events, i + 1) == (Action::Settle { millis: SETTLE_MILLIS }),
{
    lemma_state_at_next(state, events, i);
    lemma_state_at_valid(state, events, i);
    lemma_state_at_next(state, events, i + 1);
    lemma_state_at_valid(state, events, i + 1);
    if phase_at(state, events, i + 1) is Halted {
        lemma_halted_is_final(state, events, i + 1, j);
    } else if i + 2 < j {
        assert(!(action_at(state, events, i + 1) is Sample));
        assert(!(action_at(state, events, i + 2) is Sample));
        lemma_halted_is_final(state, events, i + 2, j);
    }
}

/// Sends do not overlap. If a run hands a train to the channel at
/// observation `i` and another at observation `j`, then right after the
/// first it waited for the transmission in flight, and that wait completed:
/// the channel was idle again before it was used again.
pub proof fn lemma_sends_do_not_overlap(state: State, events: Seq<Event>, i: int, j: int)
    requires
        state.valid(),
        0 <= i < j <= events.len(),
        action_at(state, events, i) is Transmit,
        action_at(state, events, j) is Transmit,
    ensures
        i + 2 <= j,
        events[i] == Event::Done,
        phase_at(state, events, i + 1).channel_in_flight(),
        action_at(state, events, i + 1) == Action::Await,
        events[i + 1] == Event::Done,
        !phase_at(state, events, i + 2).channel_in_flight(),
{
    lemma_state_at_next(state, events, i);
    lemma_state_at_valid(state, events, i);
    if phase_at(state, events, i + 1) is Halted {
        lemma_halted_is_final(state, events, i + 1, j);
    }
    lemma_state_at_next(state, events, i + 1);
    lemma_state_at_valid(state, events, i + 1);
    if phase_at(state, events, i + 2) is Halted {
        lemma_halted_is_final(state, events, i + 2, j);
    }
}

/// The channel is in flight only while the scanner waits for it: in that
/// phase the pending action is `Await`, and no other action is pending while
/// a transmission is in flight.
pub proof fn lemma_in_flight_awaits(phase: Phase)
    ensures
        phase.channel_in_flight() <==> spec_pending(phase) == Action::Await,
        spec_pending(phase) is Transmit ==> !phase.channel_in_flight(),
{
}

/// A train is sent for a press and for nothing else. If a run has `Transmit`
/// pending at observation `j`, two events after its start or later, then
/// two observations earlier it sampled a cell whose stored level was low and
/// read it high, it then announced the symbol of that cell, and the train
/// is that of the cell's scan index.
pub proof fn lemma_transmit_follows_press(state: State, events: Seq<Event>, j: int)
    requires
        state.valid(),
        2 <= j <= events.len(),
        action_at(state, events, j) is Transmit,
    ensures
        ({
            let before = state_at(state, events, j - 2);
            &&& before.phase matches Phase::Sampling { row, column }
            &&& events[j - 2] == Event::Level(true)
            &&& spec_changes(before.levels, spec_scan_index(row as int, column as int), true)
            &&& action_at(state, events, j - 1) == (Action::Announce {
                symbol: spec_symbol(spec_scan_index(row as int, column as int)),
            })
            &&& events[j - 1] == Event::Done
            &&& action_at(state, events, j) == (Action::Transmit {
                train: spec_train(spec_scan_index(row as int, column as int)),
            })
        }),
{
    lemma_state_at_next(state, events, j - 1);
    lemma_state_at_valid(state, events, j - 1);
    lemma_state_at_next(state, events, j - 2);
    lemma_state_at_valid(state, events, j - 2);
}

/// A press is announced, sent and waited for before the next cell is read.
/// If a run reads a high level from a cell whose stored level is low, and
/// the three events after that are `Done`, then the three actions after the
/// reading are to announce the symbol of the cell, to hand the train of its
/// scan index to the channel and to wait for the channel; after them the
/// scanner is where it is after a cell without a press.
pub proof fn lemma_press_is_sent(
    state: State,
    events: Seq<Event>,
    k: int,
    row: usize,
    column: usize,
)
    requires
        state.valid(),
        0 <= k,
        k + 4 <= events.len(),
        phase_at(state, events, k) == (Phase::Sampling { row, column }),
        !state_at(state, events, k).levels[spec_scan_index(row as int, column as int)],
        events[k] == Event::Level(true),
        events[k + 1] == Event::Done,
        events[k + 2] == Event::Done,
        events[k + 3] == Event::Done,
    ensures
        action_at(state, events, k + 1) == (Action::Announce {
            symbol: spec_symbol(spec_scan_index(row as int, column as int)),
        }),
        action_at(state, events, k + 2) == (Action::Transmit {
            train: spec_train(spec_scan_index(row as int, column as int)),
        }),
        action_at(state, events, k + 3) == Action::Await,
        phase_at(state, events, k + 4) == spec_after_cell(row, column),
        state_at(state, events, k + 4).levels[spec_scan_index(row as int, column as int)],
{
    lemma_state_at_valid(state, events, k);
    lemma_state_at_next(state, events, k);
    lemma_state_at_next(state, events, k + 1);
    lemma_state_at_next(state, events, k + 2);
    lemma_state_at_next(state, events, k + 3);
}

/// A press is announced and sent, a release and a held level are not. When
/// a cell is sampled, the scanner goes on to announce and send if and only
/// if the level read is high and the stored level was low; otherwise it
/// goes straight on to the next cell.
pub proof fn lemma_only_a_press_is_sent(state: State, row: usize, column: usize, level: bool)
    requires
        state.valid(),
        state.phase == (Phase::Sampling { row, column }),
    ensures
        ({
            let cell = spec_scan_index(row as int, column as int);
            let next = spec_step(state, Event::Level(level));
            let press = level && !state.levels[cell];
            &&& press ==> next.phase == (Phase::Announcing { row, column })
            &&& !press ==> next.phase == spec_after_cell(row, column)
            &&& next.levels[cell] == level
        }),
{
}

/// What the debounce was shown during a run: one observation for each
/// level read, in the order they were read.
pub open spec fn observations(state: State, events: Seq<Event>) -> Seq<Observation>
    decreases events.len(),
{
    if events.len() == 0 {
        Seq::empty()
    } else {
        let earlier = observations(state, events.drop_last());
        match (run(state, events.drop_last()).phase, events.last()) {
            (Phase::Sampling { row, column }, Event::Level(level)) => earlier.push(
                Observation { cell: spec_scan_index(row as int, column as int), level },
            ),
            _ => earlier,
        }
    }
}

/// The levels that a run stores are those of the debounce, shown the levels
/// that the run read: whatever holds of every history of observations holds
/// of the scanner.
pub proof fn lemma_levels_are_replayed(state: State, events: Seq<Event>)
    requires
        state.valid(),
    ensures
        in_range(state.levels, observations(state, events)),
        run(state, events).levels == replay(state.levels, observations(state, events)),
        run(state, events).valid(),
    decreases events.len(),
{
    if events.len() > 0 {
        let earlier = events.drop_last();
        lemma_levels_are_replayed(state, earlier);
        let before = run(state, earlier);
        let seen = observations(state, earlier);
        lemma_step_valid(before, events.last());
        match (before.phase, events.last()) {
            (Phase::Sampling { row, column }, Event::Level(level)) => {
                let shown = Observation {
                    cell: spec_scan_index(row as int, column as int),
                    level,
                };
                assert(seen.push(shown).drop_last() =~= seen);
                assert(seen.push(shown).last() == shown);
            },
            _ => {},
        }
    }
}

/// A key is announced when the debounce reports a press of it, and only
/// then. If a run has read `level` from the cell at (`row`, `column`) with
/// its last event, then that reading is the last observation of the run,
/// and the scanner goes on to announce the key if and only if that
/// observation reports a transition and the level is high.
pub proof fn lemma_announced_iff_pressed(
    state: State,
    events: Seq<Event>,
    row: usize,
    column: usize,
    level: bool,
)
    requires
        state.valid(),
        events.len() > 0,
        run(state, events.drop_last()).phase == (Phase::Sampling { row, column }),
        events.last() == Event::Level(level),
    ensures
        ({
            let history = observations(state, events);
            let last = history.len() - 1;
            &&& history.len() > 0
            &&& history[last] == (Observation {
                cell: spec_scan_index(row as int, column as int),
                level,
            })
            &&& run(state, events).phase == (Phase::Announcing { row, column }) <==> fires(
                state.levels,
                history,
                last,
            ) && level
            &&& !(run(state, events).phase is Halted)
        }),
{
    let earlier = events.drop_last();
    lemma_levels_are_replayed(state, earlier);
    let seen = observations(state, earlier);
    let history = observations(state, events);
    assert(history.take(history.len() - 1) =~= seen);
}

} // verus!
