//! The columns of a table: how many there are and how wide each one is.
//!
//! In the contracts a table is a `Seq` of rows, a row a `Seq` of cells and a
//! cell a `Seq<char>`: the deep view of a `Vec<Vec<String>>`.

use crate::width::{display_width, text_columns};
use vstd::prelude::*;

verus! {

/// The cell of `row` in column `j`. A row that ends before column `j` has an
/// empty cell there.
pub open spec fn cell_at(row: Seq<Seq<char>>, j: int) -> Seq<char> {
    if 0 <= j < row.len() {
        row[j]
    } else {
        Seq::empty()
    }
}

/// The larger of two numbers.
pub open spec fn larger(a: nat, b: nat) -> nat {
    if a >= b {
        a
    } else {
        b
    }
}

/// The number of columns of a table: the length of its longest row, and 0
/// for a table without rows.
pub open spec fn column_count(rows: Seq<Seq<Seq<char>>>) -> nat
    decreases rows.len(),
{
    if rows.len() == 0 {
        0
    } else {
        larger(column_count(rows.drop_last()), rows.last().len())
    }
}

/// The width of column `j`: the width of its widest cell, and at least 1.
pub open spec fn column_width(rows: Seq<Seq<Seq<char>>>, j: int) -> nat
    decreases rows.len(),
{
    if rows.len() == 0 {
        1
    } else {
        larger(column_width(rows.drop_last(), j), text_columns(cell_at(rows.last(), j)))
    }
}

/// The widths of all the columns of a table, from left to right.
pub open spec fn column_widths(rows: Seq<Seq<Seq<char>>>) -> Seq<nat> {
    Seq::new(column_count(rows), |j: int| column_width(rows, j))
}

/// No row is longer than the table has columns, and a table with rows has a
/// row of exactly that length.
pub proof fn lemma_column_count_is_longest_row(rows: Seq<Seq<Seq<char>>>)
    ensures
        forall|i: int| 0 <= i < rows.len() ==> (#[trigger] rows[i]).len() <= column_count(rows),
        rows.len() > 0 ==> exists|i: int|
            0 <= i < rows.len() && (#[trigger] rows[i]).len() == column_count(rows),
    decreases rows.len(),
{
    if rows.len() > 0 {
        let front = rows.drop_last();
        lemma_column_count_is_longest_row(front);
        assert forall|i: int| 0 <= i < rows.len() implies (#[trigger] rows[i]).len()
            <= column_count(rows) by {
            if i < front.len() {
                assert(rows[i] == front[i]);
            }
        }
        if column_count(rows) == rows.last().len() {
            assert(rows[rows.len() - 1].len() == column_count(rows));
        } else {
            let i = choose|i: int|
                0 <= i < front.len() && (#[trigger] front[i]).len() == column_count(front);
            assert(rows[i] == front[i]);
        }
    }
}

/// A column is at least as wide as each of its cells and at least 1 wide, and
/// it is no wider than that: its width is 1 or the width of one of its cells.
pub proof fn lemma_column_width_is_widest_cell(rows: Seq<Seq<Seq<char>>>, j: int)
    ensures
        column_width(rows, j) >= 1,
        forall|i: int|
            0 <= i < rows.len() ==> text_columns(cell_at(#[trigger] rows[i], j)) <= column_width(
                rows,
                j,
            ),
        column_width(rows, j) == 1 || exists|i: int|
            0 <= i < rows.len() && text_columns(cell_at(#[trigger] rows[i], j)) == column_width(
                rows,
                j,
            ),
    decreases rows.len(),
{
    if rows.len() > 0 {
        let front = rows.drop_last();
        lemma_column_width_is_widest_cell(front, j);
        assert forall|i: int| 0 <= i < rows.len() implies text_columns(
            cell_at(#[trigger] rows[i], j),
        ) <= column_width(rows, j) by {
            if i < front.len() {
                assert(rows[i] == front[i]);
            }
        }
        if column_width(rows, j) == text_columns(cell_at(rows.last(), j)) {
            assert(text_columns(cell_at(rows[rows.len() - 1], j)) == column_width(rows, j));
        } else if column_width(rows, j) != 1 {
            let i = choose|i: int|
                0 <= i < front.len() && text_columns(cell_at(#[trigger] front[i], j))
                    == column_width(front, j);
            assert(rows[i] == front[i]);
        }
    }
}

/// Whether two tables have the same shape and, cell by cell, texts of the
/// same width.
pub open spec fn same_cell_widths(first: Seq<Seq<Seq<char>>>, second: Seq<Seq<Seq<char>>>) -> bool {
    &&& first.len() == second.len()
    &&& forall|i: int| 0 <= i < first.len() ==> (#[trigger] first[i]).len() == second[i].len()
    &&& forall|i: int, j: int|
        0 <= i < first.len() && 0 <= j < first[i].len() ==> text_columns(#[trigger] first[i][j])
            == text_columns(second[i][j])
}

/// The columns of a table depend on the widths of its cells alone: a cell
/// counts for as many columns as its text takes up, whatever its characters.
pub proof fn lemma_columns_depend_on_cell_widths(
    first: Seq<Seq<Seq<char>>>,
    second: Seq<Seq<Seq<char>>>,
)
    requires
        same_cell_widths(first, second),
    ensures
        column_count(first) == column_count(second),
        column_widths(first) == column_widths(second),
{
    lemma_same_column_count(first, second);
    assert forall|j: int| 0 <= j < column_count(first) implies column_width(first, j)
        == column_width(second, j) by {
        lemma_same_column_width(first, second, j);
    }
    assert(column_widths(first) =~= column_widths(second));
}

/// Two tables of the same shape have the same number of columns.
proof fn lemma_same_column_count(first: Seq<Seq<Seq<char>>>, second: Seq<Seq<Seq<char>>>)
    requires
        same_cell_widths(first, second),
    ensures
        column_count(first) == column_count(second),
    decreases first.len(),
{
    if first.len() > 0 {
        assert(first.last().len() == second.last().len());
        lemma_same_cell_widths_of_front(first, second);
        lemma_same_column_count(first.drop_last(), second.drop_last());
    }
}

/// Two tables with cells of the same widths have columns of the same widths.
proof fn lemma_same_column_width(
    first: Seq<Seq<Seq<char>>>,
    second: Seq<Seq<Seq<char>>>,
    j: int,
)
    requires
        same_cell_widths(first, second),
    ensures
        column_width(first, j) == column_width(second, j),
    decreases first.len(),
{
    if first.len() > 0 {
        let last = first.len() - 1;
        assert(first[last].len() == second[last].len());
        if 0 <= j < first[last].len() {
            assert(text_columns(first[last][j]) == text_columns(second[last][j]));
        }
        lemma_same_cell_widths_of_front(first, second);
        lemma_same_column_width(first.drop_last(), second.drop_last(), j);
    }
}

/// Tables with cells of the same widths stay so without their last rows.
proof fn lemma_same_cell_widths_of_front(
    first: Seq<Seq<Seq<char>>>,
    second: Seq<Seq<Seq<char>>>,
)
    requires
        same_cell_widths(first, second),
        first.len() > 0,
    ensures
        same_cell_widths(first.drop_last(), second.drop_last()),
{
    let a = first.drop_last();
    let b = second.drop_last();
    assert forall|i: int| 0 <= i < a.len() implies (#[trigger] a[i]).len() == b[i].len() by {
        assert(first[i].len() == second[i].len());
    }
    assert forall|i: int, j: int| 0 <= i < a.len() && 0 <= j < a[i].len() implies text_columns(
        #[trigger] a[i][j],
    ) == text_columns(b[i][j]) by {
        assert(text_columns(first[i][j]) == text_columns(second[i][j]));
    }
}

/// The number of columns of a table.
pub fn count_columns(rows: &Vec<Vec<String>>) -> (count: usize)
    ensures
        count == column_count(rows.deep_view()),
{
    let mut count: usize = 0;
    for i in 0..rows.len()
        invariant
            count == column_count(rows.deep_view().take(i as int)),
    {
        proof {
            assert(rows.deep_view().take(i + 1).drop_last() =~= rows.deep_view().take(i as int));
        }
        if rows[i].len() > count {
            count = rows[i].len();
        }
    }
    proof {
        assert(rows.deep_view().take(rows.len() as int) =~= rows.deep_view());
    }
    count
}

/// The width of column `j` of a table.
pub fn measure_column(rows: &Vec<Vec<String>>, j: usize) -> (width: u128)
    ensures
        width == column_width(rows.deep_view(), j as int),
{
    let mut width: u128 = 1;
    for i in 0..rows.len()
        invariant
            width == column_width(rows.deep_view().take(i as int), j as int),
    {
        proof {
            assert(rows.deep_view().take(i + 1).drop_last() =~= rows.deep_view().take(i as int));
        }
        if j < rows[i].len() {
            let cell_width: u128 = display_width(rows[i][j].as_str());
            if cell_width > width {
                width = cell_width;
            }
        }
    }
    proof {
        assert(rows.deep_view().take(rows.len() as int) =~= rows.deep_view());
    }
    width
}

/// The widths of all the columns of a table, from left to right.
pub fn measure_columns(rows: &Vec<Vec<String>>) -> (widths: Vec<u128>)
    ensures
        widths@.len() == column_count(rows.deep_view()),
        forall|j: int|
            0 <= j < widths@.len() ==> widths@[j] == column_width(rows.deep_view(), j),
{
    let count: usize = count_columns(rows);
    let mut widths: Vec<u128> = Vec::new();
    for j in 0..count
        invariant
            widths@.len() == j,
            forall|k: int| 0 <= k < j ==> widths@[k] == column_width(rows.deep_view(), k),
    {
        let width: u128 = measure_column(rows, j);
        widths.push(width);
    }
    widths
}

} // verus!
