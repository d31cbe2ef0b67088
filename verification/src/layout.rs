//! The geometry of the keypad: rows, columns, scan indices and key symbols.
//!
//! A cell is named by its coordinate (`row`, `column`). Two further views of the
//! same coordinate are fixed at compile time: the scan index, which numbers
//! the cells row by row, and the symbol printed on the key.

use vstd::prelude::*;

verus! {

/// Number of row lines of the matrix.
pub const ROWS: usize = 4;

/// Number of column lines of the matrix.
pub const COLS: usize = 3;

/// Number of cells of the matrix.
pub const KEYS: usize = 12;

/// Whether (`row`, `column`) names a cell of the matrix.
pub open spec fn is_cell(row: int, column: int) -> bool {
    0 <= row < ROWS && 0 <= column < COLS
}

/// Whether `index` is the scan index of some cell.
pub open spec fn is_index(index: int) -> bool {
    0 <= index < KEYS
}

/// The scan index of the cell at (`row`, `column`): cells are numbered row by row.
pub open spec fn spec_scan_index(row: int, column: int) -> int {
    row * COLS + column
}

/// The row of the cell with scan index `index`.
pub open spec fn spec_row_of(index: int) -> int {
    index / (COLS as int)
}

/// The column of the cell with scan index `index`.
pub open spec fn spec_column_of(index: int) -> int {
    index % (COLS as int)
}

/// The symbol printed on the key with scan index `index`:
///
/// ```text
/// 1 2 3
/// 4 5 6
/// 7 8 9
/// * 0 #
/// ```
pub open spec fn spec_symbol(index: int) -> char {
    if index == 0 {
        '1'
    } else if index == 1 {
        '2'
    } else if index == 2 {
        '3'
    } else if index == 3 {
        '4'
    } else if index == 4 {
        '5'
    } else if index == 5 {
        '6'
    } else if index == 6 {
        '7'
    } else if index == 7 {
        '8'
    } else if index == 8 {
        '9'
    } else if index == 9 {
        '*'
    } else if index == 10 {
        '0'
    } else {
        '#'
    }
}

/// The scan index of the cell at (`row`, `column`).
pub fn scan_index(row: usize, column: usize) -> (index: usize)
    requires
        is_cell(row as int, column as int),
    ensures
        index == spec_scan_index(row as int, column as int),
        is_index(index as int),
{
    row * COLS + column
}

/// The symbol printed on the key at (`row`, `column`).
pub fn symbol(row: usize, column: usize) -> (c: char)
    requires
        is_cell(row as int, column as int),
    ensures
        c == spec_symbol(spec_scan_index(row as int, column as int)),
{
    let index: usize = scan_index(row, column);
    if index == 0 {
        '1'
    } else if index == 1 {
        '2'
    } else if index == 2 {
        '3'
    } else if index == 3 {
        '4'
    } else if index == 4 {
        '5'
    } else if index == 5 {
        '6'
    } else if index == 6 {
        '7'
    } else if index == 7 {
        '8'
    } else if index == 8 {
        '9'
    } else if index == 9 {
        '*'
    } else if index == 10 {
        '0'
    } else {
        '#'
    }
}

/// Every cell has a scan index in `[0, KEYS)`.
pub proof fn lemma_scan_index_in_range(row: int, column: int)
    requires
        is_cell(row, column),
    ensures
        is_index(spec_scan_index(row, column)),
{
}

/// Two cells with the same scan index are the same cell.
pub proof fn lemma_scan_index_injective(row_a: int, column_a: int, row_b: int, column_b: int)
    requires
        is_cell(row_a, column_a),
        is_cell(row_b, column_b),
        spec_scan_index(row_a, column_a) == spec_scan_index(row_b, column_b),
    ensures
        row_a == row_b,
        column_a == column_b,
{
}

/// Row and column are recovered from the scan index of a cell.
pub proof fn lemma_cell_of_scan_index(row: int, column: int)
    requires
        is_cell(row, column),
    ensures
        spec_row_of(spec_scan_index(row, column)) == row,
        spec_column_of(spec_scan_index(row, column)) == column,
{
}

/// Every index in `[0, KEYS)` is the scan index of exactly the cell that
/// `spec_row_of` and `spec_column_of` give.
pub proof fn lemma_scan_index_of_cell(index: int)
    requires
        is_index(index),
    ensures
        is_cell(spec_row_of(index), spec_column_of(index)),
        spec_scan_index(spec_row_of(index), spec_column_of(index)) == index,
{
}

/// No two keys carry the same symbol.
pub proof fn lemma_symbols_distinct(index_a: int, index_b: int)
    requires
        is_index(index_a),
        is_index(index_b),
        spec_symbol(index_a) == spec_symbol(index_b),
    ensures
        index_a == index_b,
{
}

/// No two cells carry the same symbol.
pub proof fn lemma_cell_symbols_distinct(row_a: int, column_a: int, row_b: int, column_b: int)
    requires
        is_cell(row_a, column_a),
        is_cell(row_b, column_b),
        spec_symbol(spec_scan_index(row_a, column_a)) == spec_symbol(
            spec_scan_index(row_b, column_b),
        ),
    ensures
        row_a == row_b,
        column_a == column_b,
{
    lemma_symbols_distinct(spec_scan_index(row_a, column_a), spec_scan_index(row_b, column_b));
}

} // verus!
