//! What a cell may hold: any text without a line feed.

use vstd::prelude::*;

verus! {

/// Whether a cell's text holds a line feed.
pub open spec fn has_newline(cell: Seq<char>) -> bool {
    exists|k: int| 0 <= k < cell.len() && cell[k] == '\n'
}

/// Whether every cell of a table can be laid out: none holds a line feed.
pub open spec fn cells_supported(rows: Seq<Seq<Seq<char>>>) -> bool {
    forall|i: int, j: int|
        0 <= i < rows.len() && 0 <= j < rows[i].len() ==> !has_newline(#[trigger] rows[i][j])
}

/// Whether a text holds a line feed.
pub fn contains_newline(s: &str) -> (found: bool)
    ensures
        found == has_newline(s@),
{
    for c in it: s.chars()
        invariant
            it.seq() == s@,
            forall|k: int| 0 <= k < it.index() ==> s@[k] != '\n',
    {
        if c == '\n' {
            assert(s@[it.index()] == '\n');
            return true;
        }
    }
    false
}

/// Whether every cell of a table can be laid out.
pub fn check_cells(rows: &Vec<Vec<String>>) -> (supported: bool)
    ensures
        supported == cells_supported(rows.deep_view()),
{
    for i in 0..rows.len()
        invariant
            forall|a: int, b: int|
                0 <= a < i && 0 <= b < rows.deep_view()[a].len() ==> !has_newline(
                    #[trigger] rows.deep_view()[a][b],
                ),
    {
        let row = &rows[i];
        for j in 0..row.len()
            invariant
                i < rows.len(),
                *row == rows[i as int],
                forall|a: int, b: int|
                    0 <= a < i && 0 <= b < rows.deep_view()[a].len() ==> !has_newline(
                        #[trigger] rows.deep_view()[a][b],
                    ),
                forall|b: int|
                    0 <= b < j ==> !has_newline(#[trigger] rows.deep_view()[i as int][b]),
        {
            if contains_newline(row[j].as_str()) {
                assert(has_newline(rows.deep_view()[i as int][j as int]));
                return false;
            }
        }
    }
    true
}

} // verus!
