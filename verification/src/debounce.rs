//! Level-comparison debounce: the last level seen of every cell, and the
//! transitions between levels.
//!
//! A cell is reported once when its sampled level differs from the stored
//! one, and the sampled level is stored. While the samples stay the same
//! nothing more is reported. A change to high is a press, a change to low a
//! release.

use vstd::prelude::*;
use crate::layout::{is_cell, is_index, scan_index, spec_row_of, spec_scan_index, COLS, KEYS, ROWS};

verus! {

/// A change of level of one cell.
#[derive(Clone, Copy, Debug, PartialEq, Eq)]
pub struct Transition {
    pub row: usize,
    pub column: usize,
    /// The level that the cell changed to.
    pub level: bool,
}

impl Transition {
    /// A change to the active level: the key went down.
    pub open spec fn spec_is_press(self) -> bool {
        self.level
    }

    /// A change to the idle level: the key came up.
    pub open spec fn spec_is_release(self) -> bool {
        !self.level
    }

    /// Whether the key went down.
    #[verifier::when_used_as_spec(spec_is_press)]
    pub fn is_press(self) -> (press: bool)
        ensures
            press == self.spec_is_press(),
    {
        self.level
    }

    /// Whether the key came up.
    #[verifier::when_used_as_spec(spec_is_release)]
    pub fn is_release(self) -> (release: bool)
        ensures
            release == self.spec_is_release(),
    {
        !self.level
    }
}

/// The levels of a matrix at rest: every cell idle.
pub open spec fn spec_idle_levels() -> Seq<bool> {
    Seq::new(KEYS as nat, |cell: int| false)
}

/// Whether the freshly sampled `level` of `cell` differs from the one that
/// `levels` stores for it.
pub open spec fn spec_changes(levels: Seq<bool>, cell: int, level: bool) -> bool {
    levels[cell] != level
}

/// The stored levels once `level` has been observed at `cell`.
pub open spec fn spec_store(levels: Seq<bool>, cell: int, level: bool) -> Seq<bool> {
    levels.update(cell, level)
}

/// What observing `level` at (`row`, `column`) reports when the stored levels
/// are `levels`: a transition if the level differs from the stored one.
pub open spec fn spec_transition(levels: Seq<bool>, row: usize, column: usize, level: bool)
    -> Option<Transition> {
    if spec_changes(levels, spec_scan_index(row as int, column as int), level) {
        Some(Transition { row, column, level })
    } else {
        None
    }
}

/// The last level seen of every cell of the matrix.
///
/// Its view is the sequence of the stored levels, by scan index.
#[derive(Clone, Copy, Debug, PartialEq, Eq)]
pub struct Matrix {
    levels: [bool; 12],
}

impl View for Matrix {
    type V = Seq<bool>;

    closed spec fn view(&self) -> Seq<bool> {
        self.levels@
    }
}

impl Matrix {
    /// A matrix at rest: every cell idle.
    pub fn new() -> (matrix: Matrix)
        ensures
            matrix@ == spec_idle_levels(),
    {
        let matrix = Matrix { levels: [false; 12] };
        assert(matrix@ =~= spec_idle_levels());
        matrix
    }

    /// A matrix stores one level for each cell.
    pub proof fn lemma_len(self)
        ensures
            self@.len() == KEYS,
    {
    }

    /// The stored level of the cell at (`row`, `column`).
    pub fn level(&self, row: usize, column: usize) -> (level: bool)
        requires
            is_cell(row as int, column as int),
        ensures
            level == self@[spec_scan_index(row as int, column as int)],
    {
        self.levels[scan_index(row, column)]
    }

    /// Compares the freshly sampled `level` of the cell at (`row`, `column`)
    /// with the stored one. An unchanged level reports nothing and leaves the
    /// matrix as it is; a changed one is stored and reported.
    pub fn observe(&mut self, row: usize, column: usize, level: bool) -> (event: Option<
        Transition,
    >)
        requires
            is_cell(row as int, column as int),
        ensures
            event == spec_transition(old(self)@, row, column, level),
            final(self)@ == spec_store(
                old(self)@,
                spec_scan_index(row as int, column as int),
                level,
            ),
            event is None ==> final(self)@ == old(self)@,
            final(self)@.len() == KEYS,
    {
        let index: usize = scan_index(row, column);
        if self.levels[index] != level {
            self.levels[index] = level;
            Some(Transition { row, column, level })
        } else {
            assert(self.levels@ =~= self.levels@.update(index as int, level));
            None
        }
    }

    /// Compares the freshly sampled levels of the columns of `row`, column 0
    /// first, with the stored ones. Each column whose level changed is
    /// reported at its place and its new level stored; the cells of the other
    /// rows stay as they are.
    pub fn observe_row(&mut self, row: usize, levels: [bool; 3]) -> (events: [Option<
        Transition,
    >; 3])
        requires
            row < ROWS,
        ensures
            forall|column: int|
                0 <= column < COLS ==> #[trigger] events@[column] == spec_transition(
                    old(self)@,
                    row,
                    column as usize,
                    levels@[column],
                ),
            forall|column: int|
                0 <= column < COLS ==> final(self)@[spec_scan_index(row as int, column)]
                    == #[trigger] levels@[column],
            forall|cell: int|
                is_index(cell) && spec_row_of(cell) != row ==> #[trigger] final(self)@[cell] == old(
                    self,
                )@[cell],
            final(self)@.len() == KEYS,
    {
        proof {
            self.lemma_len();
        }
        let first = self.observe(row, 0, levels[0]);
        let second = self.observe(row, 1, levels[1]);
        let third = self.observe(row, 2, levels[2]);
        [first, second, third]
    }
}

/// One sample of one cell, as the debounce sees it: the scan index of the
/// cell and the level read.
pub struct Observation {
    pub cell: int,
    pub level: bool,
}

/// Whether every observation of `history` is of a cell of `levels`.
pub open spec fn in_range(levels: Seq<bool>, history: Seq<Observation>) -> bool {
    forall|k: int| 0 <= k < history.len() ==> 0 <= (#[trigger] history[k]).cell < levels.len()
}

/// The stored levels after the observations of `history`, made in order from
/// the stored levels `levels`.
pub open spec fn replay(levels: Seq<bool>, history: Seq<Observation>) -> Seq<bool>
    decreases history.len(),
{
    if history.len() == 0 {
        levels
    } else {
        spec_store(replay(levels, history.drop_last()), history.last().cell, history.last().level)
    }
}

/// Whether observation `k` of `history` reports a transition: the level it
/// reads differs from the one stored by then. The transition is a press if
/// that level is high, a release if it is low.
pub open spec fn fires(levels: Seq<bool>, history: Seq<Observation>, k: int) -> bool {
    spec_changes(replay(levels, history.take(k)), history[k].cell, history[k].level)
}

/// Observations change no length.
pub proof fn lemma_replay_len(levels: Seq<bool>, history: Seq<Observation>)
    requires
        in_range(levels, history),
    ensures
        replay(levels, history).len() == levels.len(),
    decreases history.len(),
{
    if history.len() > 0 {
        let earlier = history.drop_last();
        assert forall|k: int| 0 <= k < earlier.len() implies 0 <= (#[trigger] earlier[k]).cell
            < levels.len() by {
            assert(earlier[k] == history[k]);
        }
        lemma_replay_len(levels, earlier);
        assert(0 <= history[history.len() - 1].cell < levels.len());
    }
}

/// The first `k` observations of a history in range are in range.
proof fn lemma_take_in_range(levels: Seq<bool>, history: Seq<Observation>, k: int)
    requires
        in_range(levels, history),
        0 <= k <= history.len(),
    ensures
        in_range(levels, history.take(k)),
{
    let earlier = history.take(k);
    assert forall|m: int| 0 <= m < earlier.len() implies 0 <= (#[trigger] earlier[m]).cell
        < levels.len() by {
        assert(earlier[m] == history[m]);
    }
}

/// The levels after `k + 1` observations are those after `k`, with the level
/// of observation `k` stored.
pub proof fn lemma_replay_step(levels: Seq<bool>, history: Seq<Observation>, k: int)
    requires
        0 <= k < history.len(),
    ensures
        replay(levels, history.take(k + 1)) == spec_store(
            replay(levels, history.take(k)),
            history[k].cell,
            history[k].level,
        ),
{
    assert(history.take(k + 1).drop_last() =~= history.take(k));
}

/// The stored level is the latest one observed: right after observation
/// `k`, the cell it looked at holds the level it read.
pub proof fn lemma_stored_after_observation(
    levels: Seq<bool>,
    history: Seq<Observation>,
    k: int,
)
    requires
        in_range(levels, history),
        0 <= k < history.len(),
    ensures
        replay(levels, history.take(k + 1))[history[k].cell] == history[k].level,
{
    lemma_replay_step(levels, history, k);
    lemma_take_in_range(levels, history, k);
    lemma_replay_len(levels, history.take(k));
}

/// A cell keeps its stored level `held` from observation `from` up to
/// observation `to` if each observation of it in between reads `held` or
/// reports nothing.
proof fn lemma_level_kept(
    levels: Seq<bool>,
    history: Seq<Observation>,
    cell: int,
    held: bool,
    from: int,
    to: int,
)
    requires
        in_range(levels, history),
        0 <= cell < levels.len(),
        0 <= from <= to <= history.len(),
        replay(levels, history.take(from))[cell] == held,
        forall|m: int|
            from <= m < to && (#[trigger] history[m]).cell == cell ==> history[m].level == held
                || !fires(levels, history, m),
    ensures
        replay(levels, history.take(to))[cell] == held,
    decreases to - from,
{
    if from < to {
        lemma_level_kept(levels, history, cell, held, from, to - 1);
        lemma_replay_step(levels, history, to - 1);
        lemma_take_in_range(levels, history, to - 1);
        lemma_replay_len(levels, history.take(to - 1));
        let last = history[to - 1];
        if last.cell == cell {
            assert(last.level == held || !fires(levels, history, to - 1));
        }
    }
}

/// The stored level of a cell is the level of the latest observation of it.
/// If observation `k` is the last of its cell among the first `n`, then
/// after those `n` the cell holds the level that observation `k` read.
pub proof fn lemma_stored_is_latest(levels: Seq<bool>, history: Seq<Observation>, k: int, n: int)
    requires
        in_range(levels, history),
        0 <= k < n <= history.len(),
        forall|m: int| k < m < n ==> (#[trigger] history[m]).cell != history[k].cell,
    ensures
        replay(levels, history.take(n))[history[k].cell] == history[k].level,
{
    lemma_stored_after_observation(levels, history, k);
    lemma_level_kept(levels, history, history[k].cell, history[k].level, k + 1, n);
}

/// A cell that is never observed keeps the level it started with.
pub proof fn lemma_unobserved_is_kept(
    levels: Seq<bool>,
    history: Seq<Observation>,
    cell: int,
    n: int,
)
    requires
        in_range(levels, history),
        0 <= cell < levels.len(),
        0 <= n <= history.len(),
        forall|m: int| 0 <= m < n ==> (#[trigger] history[m]).cell != cell,
    ensures
        replay(levels, history.take(n))[cell] == levels[cell],
{
    assert(history.take(0) =~= Seq::<Observation>::empty());
    lemma_level_kept(levels, history, cell, levels[cell], 0, n);
}

/// Holding a level reports it once at most. If observations `i` and `j` of
/// one cell read the same level, and so does every observation of that cell
/// between them, then observation `j` reports nothing: the only transition
/// that the held level can give is the one where it was first read.
pub proof fn lemma_held_level_is_silent(
    levels: Seq<bool>,
    history: Seq<Observation>,
    i: int,
    j: int,
)
    requires
        in_range(levels, history),
        0 <= i < j < history.len(),
        history[j].cell == history[i].cell,
        history[j].level == history[i].level,
        forall|m: int|
            i < m < j && (#[trigger] history[m]).cell == history[i].cell ==> history[m].level
                == history[i].level,
    ensures
        !fires(levels, history, j),
{
    lemma_stored_after_observation(levels, history, i);
    lemma_level_kept(levels, history, history[i].cell, history[i].level, i + 1, j);
}

/// Presses and releases of a cell alternate. If observations `i` and `j` of
/// one cell both report a transition and no observation of that cell between
/// them does, then one of the two is a press and the other a release.
pub proof fn lemma_transitions_alternate(
    levels: Seq<bool>,
    history: Seq<Observation>,
    i: int,
    j: int,
)
    requires
        in_range(levels, history),
        0 <= i < j < history.len(),
        history[j].cell == history[i].cell,
        fires(levels, history, i),
        fires(levels, history, j),
        forall|m: int|
            i < m < j && (#[trigger] history[m]).cell == history[i].cell ==> !fires(
                levels,
                history,
                m,
            ),
    ensures
        history[j].level != history[i].level,
{
    lemma_stored_after_observation(levels, history, i);
    lemma_level_kept(levels, history, history[i].cell, history[i].level, i + 1, j);
}

/// The first transition of a cell leaves the level that the cell started
/// with: from a matrix at rest, the first transition of every cell is a
/// press.
pub proof fn lemma_first_transition(levels: Seq<bool>, history: Seq<Observation>, j: int)
    requires
        in_range(levels, history),
        0 <= j < history.len(),
        fires(levels, history, j),
        forall|m: int|
            0 <= m < j && (#[trigger] history[m]).cell == history[j].cell ==> !fires(
                levels,
                history,
                m,
            ),
    ensures
        history[j].level != levels[history[j].cell],
        levels == spec_idle_levels() ==> history[j].level,
{
    assert(history.take(0) =~= Seq::<Observation>::empty());
    lemma_level_kept(levels, history, history[j].cell, levels[history[j].cell], 0, j);
}

} // verus!
