//! Why the columns of a rendered table line up.
//!
//! Widths are counted in terminal columns. In every content line of a table
//! each separator stands at a column that depends on the widths of the
//! table's columns alone, so the separators of all rows stand one above the
//! other and all content lines are equally wide.

use crate::content::cells_supported;
use crate::frame::{
    border_line,
    border_run,
    content_line,
    content_line_index,
    content_run,
    fill_count,
    lemma_table_lines_shape,
    padded_cell,
    rendering,
    table_lines,
};
use crate::layout::{cell_at, column_count, column_widths, lemma_column_width_is_widest_cell};
use crate::lines::{lemma_lines_of_rendering, lemma_preset_glyphs_plain, lines_of, plain_glyphs};
use crate::preset::{
    ascii_full_glyphs,
    lemma_ascii_full_single_column,
    lemma_registry_entries,
    single_column,
    Glyphs,
    ASCII_FULL,
};
use crate::text::repeat;
use crate::width::{
    char_columns,
    lemma_text_columns_concat,
    lemma_text_columns_repeat,
    lemma_text_columns_single,
    lemma_text_columns_spaces,
    text_columns,
};
use vstd::prelude::*;

verus! {

/// The columns that the first `k` cells of a line take up, each with its two
/// spaces of padding.
pub open spec fn cells_columns(widths: Seq<nat>, k: nat) -> nat
    decreases k,
{
    if k == 0 {
        0
    } else {
        cells_columns(widths, (k - 1) as nat) + widths[k - 1] + 2
    }
}

/// The column at which separator `k` of a content line stands. Separator 0
/// opens the line, and separator `k` follows cell `k - 1`.
pub open spec fn separator_column(vertical: char, widths: Seq<nat>, k: nat) -> nat {
    k * char_columns(vertical) + cells_columns(widths, k)
}

/// The width of a content line over columns of the given widths.
pub open spec fn line_columns(vertical: char, widths: Seq<nat>) -> nat {
    separator_column(vertical, widths, widths.len()) + char_columns(vertical)
}

/// The place of separator `k` in the content line of `row`, counted in
/// characters from 0.
pub open spec fn separator_index(vertical: char, widths: Seq<nat>, row: Seq<Seq<char>>, k: nat)
    -> int {
    content_run(vertical, widths, row, k).len() - 1
}

/// By how much a cell has more characters than columns.
pub open spec fn excess(cell: Seq<char>) -> int {
    cell.len() - text_columns(cell)
}

/// Whether each cell of `row` is at most as wide as its column.
pub open spec fn row_fits(widths: Seq<nat>, row: Seq<Seq<char>>) -> bool {
    forall|j: int| 0 <= j < widths.len() ==> text_columns(cell_at(row, j)) <= #[trigger] widths[j]
}

/// A cell that is at most as wide as its column fills the column exactly:
/// padded, it is as wide as the column and the two spaces around it.
pub proof fn lemma_padded_cell_columns(cell: Seq<char>, width: nat)
    requires
        text_columns(cell) <= width,
    ensures
        text_columns(padded_cell(cell, width)) == width + 2,
        text_columns(cell + repeat(' ', fill_count(cell, width))) == width,
{
    let fill = repeat(' ', fill_count(cell, width));
    lemma_text_columns_single(' ');
    lemma_text_columns_spaces(fill_count(cell, width));
    lemma_text_columns_concat(seq![' '], cell);
    lemma_text_columns_concat(seq![' '] + cell, fill);
    lemma_text_columns_concat(seq![' '] + cell + fill, seq![' ']);
    lemma_text_columns_concat(cell, fill);
}

/// An empty cell is rendered as spaces only.
pub proof fn lemma_empty_cell_is_blank(width: nat)
    ensures
        padded_cell(Seq::empty(), width) == repeat(' ', width + 2),
{
    assert(text_columns(Seq::<char>::empty()) == 0);
    assert(padded_cell(Seq::empty(), width) =~= repeat(' ', width + 2));
}

/// Every row of a table fits the table's columns.
pub proof fn lemma_rows_fit(rows: Seq<Seq<Seq<char>>>, i: int)
    requires
        0 <= i < rows.len(),
    ensures
        row_fits(column_widths(rows), rows[i]),
{
    let widths = column_widths(rows);
    assert forall|j: int| 0 <= j < widths.len() implies text_columns(cell_at(rows[i], j))
        <= #[trigger] widths[j] by {
        lemma_column_width_is_widest_cell(rows, j);
    }
}

/// The first `k` columns of a content line end at the column of separator
/// `k`, whatever the row holds.
pub proof fn lemma_content_run_columns(
    vertical: char,
    widths: Seq<nat>,
    row: Seq<Seq<char>>,
    k: nat,
)
    requires
        k <= widths.len(),
        row_fits(widths, row),
    ensures
        text_columns(content_run(vertical, widths, row, k)) == separator_column(
            vertical,
            widths,
            k,
        ) + char_columns(vertical),
    decreases k,
{
    lemma_text_columns_single(vertical);
    if k == 0 {
        assert(0 * char_columns(vertical) == 0) by (nonlinear_arith);
    } else {
        let before = content_run(vertical, widths, row, (k - 1) as nat);
        let cell = padded_cell(cell_at(row, k - 1), widths[k - 1]);
        lemma_content_run_columns(vertical, widths, row, (k - 1) as nat);
        assert(text_columns(cell_at(row, k - 1)) <= widths[k - 1]);
        lemma_padded_cell_columns(cell_at(row, k - 1), widths[k - 1]);
        lemma_text_columns_concat(before, cell);
        lemma_text_columns_concat(before + cell, seq![vertical]);
        assert(k * char_columns(vertical) == (k - 1) * char_columns(vertical) + char_columns(
            vertical,
        )) by (nonlinear_arith);
    }
}

/// A content line begins with the part that spans its first `k` columns.
proof fn lemma_content_run_prefix(
    vertical: char,
    widths: Seq<nat>,
    row: Seq<Seq<char>>,
    k: nat,
    n: nat,
)
    requires
        k <= n,
    ensures
        content_run(vertical, widths, row, k).len() <= content_run(vertical, widths, row, n).len(),
        content_run(vertical, widths, row, n).take(
            content_run(vertical, widths, row, k).len() as int,
        ) == content_run(vertical, widths, row, k),
    decreases n,
{
    let short = content_run(vertical, widths, row, k);
    let long = content_run(vertical, widths, row, n);
    if k == n {
        assert(long.take(short.len() as int) =~= short);
    } else {
        lemma_content_run_prefix(vertical, widths, row, k, (n - 1) as nat);
        let before = content_run(vertical, widths, row, (n - 1) as nat);
        assert(before.take(short.len() as int) == short);
        assert(long.take(short.len() as int) =~= before.take(short.len() as int));
    }
}

/// The part of a content line that spans its first `k` columns ends with a
/// separator.
proof fn lemma_content_run_ends_with_separator(
    vertical: char,
    widths: Seq<nat>,
    row: Seq<Seq<char>>,
    k: nat,
)
    ensures
        content_run(vertical, widths, row, k).len() > 0,
        content_run(vertical, widths, row, k).last() == vertical,
{
}

/// Separator `k` of a row's content line is the separator glyph, and the
/// text before it takes up as many columns as the widths of the columns say.
pub proof fn lemma_separator_column(
    vertical: char,
    widths: Seq<nat>,
    row: Seq<Seq<char>>,
    k: nat,
)
    requires
        k <= widths.len(),
        row_fits(widths, row),
    ensures
        0 <= separator_index(vertical, widths, row, k) < content_line(vertical, widths, row).len(),
        content_line(vertical, widths, row)[separator_index(vertical, widths, row, k)] == vertical,
        text_columns(
            content_line(vertical, widths, row).take(separator_index(vertical, widths, row, k)),
        ) == separator_column(vertical, widths, k),
{
    let line = content_line(vertical, widths, row);
    let run = content_run(vertical, widths, row, k);
    let index = separator_index(vertical, widths, row, k);
    lemma_content_run_ends_with_separator(vertical, widths, row, k);
    lemma_content_run_prefix(vertical, widths, row, k, widths.len());
    lemma_content_run_columns(vertical, widths, row, k);
    assert(line.take(run.len() as int)[index] == line[index]);
    assert(line.take(index) =~= run.drop_last());
}

/// The sum of the excesses of the first `k` cells of a row.
pub open spec fn total_excess(row: Seq<Seq<char>>, k: nat) -> int
    decreases k,
{
    if k == 0 {
        0
    } else {
        total_excess(row, (k - 1) as nat) + excess(cell_at(row, k - 1))
    }
}

/// The place of separator `k` in characters: the columns of the cells before
/// it, one character for each separator before it, and what the cells before
/// it have more in characters than in columns.
pub proof fn lemma_separator_index(vertical: char, widths: Seq<nat>, row: Seq<Seq<char>>, k: nat)
    requires
        k <= widths.len(),
        row_fits(widths, row),
    ensures
        separator_index(vertical, widths, row, k) == cells_columns(widths, k) + k + total_excess(
            row,
            k,
        ),
    decreases k,
{
    if k > 0 {
        lemma_separator_index(vertical, widths, row, (k - 1) as nat);
        assert(text_columns(cell_at(row, k - 1)) <= widths[k - 1]);
    }
}

/// In a table, all content lines are equally wide: each is as wide as the
/// columns, their padding and the separators together.
pub proof fn lemma_content_lines_equally_wide(
    glyphs: Glyphs,
    rows: Seq<Seq<Seq<char>>>,
    a: int,
    b: int,
)
    requires
        column_count(rows) > 0,
        0 <= a < rows.len(),
        0 <= b < rows.len(),
    ensures
        text_columns(table_lines(glyphs, rows)[content_line_index(a)]) == line_columns(
            glyphs.vertical,
            column_widths(rows),
        ),
        text_columns(table_lines(glyphs, rows)[content_line_index(a)]) == text_columns(
            table_lines(glyphs, rows)[content_line_index(b)],
        ),
{
    let widths = column_widths(rows);
    lemma_table_lines_shape(glyphs, rows);
    lemma_rows_fit(rows, a);
    lemma_rows_fit(rows, b);
    lemma_content_run_columns(glyphs.vertical, widths, rows[a], widths.len());
    lemma_content_run_columns(glyphs.vertical, widths, rows[b], widths.len());
}

/// In a table, separator `k` stands at the same column in the content line of
/// every row: the glyph at its place is the separator, and the text before it
/// takes up as many columns as the widths of the table's columns say.
pub proof fn lemma_separators_aligned(glyphs: Glyphs, rows: Seq<Seq<Seq<char>>>, a: int, k: nat)
    requires
        0 <= a < rows.len(),
        k <= column_count(rows),
        column_count(rows) > 0,
    ensures
        ({
            let line = table_lines(glyphs, rows)[content_line_index(a)];
            let index = separator_index(glyphs.vertical, column_widths(rows), rows[a], k);
            &&& 0 <= index < line.len()
            &&& line[index] == glyphs.vertical
            &&& text_columns(line.take(index)) == separator_column(
                glyphs.vertical,
                column_widths(rows),
                k,
            )
        }),
{
    lemma_table_lines_shape(glyphs, rows);
    lemma_rows_fit(rows, a);
    lemma_separator_column(glyphs.vertical, column_widths(rows), rows[a], k);
}

/// In a table, the separators of two rows stand at the same places counted in
/// characters exactly when, column by column, the cells of the two rows have
/// the same excess of characters over columns. That is so where every
/// character of the two rows is one column wide.
pub proof fn lemma_separator_offsets(vertical: char, rows: Seq<Seq<Seq<char>>>, a: int, b: int)
    requires
        0 <= a < rows.len(),
        0 <= b < rows.len(),
    ensures
        (forall|k: nat|
            k <= column_count(rows) ==> #[trigger] separator_index(
                vertical,
                column_widths(rows),
                rows[a],
                k,
            ) == separator_index(vertical, column_widths(rows), rows[b], k)) <==> (forall|j: int|
            0 <= j < column_count(rows) ==> excess(#[trigger] cell_at(rows[a], j)) == excess(
                cell_at(rows[b], j),
            )),
{
    let widths = column_widths(rows);
    let count = column_count(rows);
    lemma_rows_fit(rows, a);
    lemma_rows_fit(rows, b);
    if forall|j: int|
        0 <= j < count ==> excess(#[trigger] cell_at(rows[a], j)) == excess(cell_at(rows[b], j)) {
        assert forall|k: nat| k <= count implies #[trigger] separator_index(
            vertical,
            widths,
            rows[a],
            k,
        ) == separator_index(vertical, widths, rows[b], k) by {
            lemma_separator_index(vertical, widths, rows[a], k);
            lemma_separator_index(vertical, widths, rows[b], k);
            lemma_total_excess_equal(rows[a], rows[b], k);
        }
    }
    if forall|k: nat|
        k <= count ==> #[trigger] separator_index(vertical, widths, rows[a], k)
            == separator_index(vertical, widths, rows[b], k) {
        assert forall|j: int| 0 <= j < count implies excess(#[trigger] cell_at(rows[a], j))
            == excess(cell_at(rows[b], j)) by {
            let k = j as nat;
            lemma_separator_index(vertical, widths, rows[a], k);
            lemma_separator_index(vertical, widths, rows[b], k);
            lemma_separator_index(vertical, widths, rows[a], k + 1);
            lemma_separator_index(vertical, widths, rows[b], k + 1);
            assert(separator_index(vertical, widths, rows[a], k) == separator_index(
                vertical,
                widths,
                rows[b],
                k,
            ));
            assert(separator_index(vertical, widths, rows[a], k + 1) == separator_index(
                vertical,
                widths,
                rows[b],
                k + 1,
            ));
        }
    }
}

/// Two rows whose cells have the same excess column by column have the same
/// total excess.
proof fn lemma_total_excess_equal(first: Seq<Seq<char>>, second: Seq<Seq<char>>, k: nat)
    requires
        forall|j: int|
            0 <= j < k ==> excess(#[trigger] cell_at(first, j)) == excess(cell_at(second, j)),
    ensures
        total_excess(first, k) == total_excess(second, k),
    decreases k,
{
    if k > 0 {
        lemma_total_excess_equal(first, second, (k - 1) as nat);
        assert(excess(cell_at(first, k - 1)) == excess(cell_at(second, k - 1)));
    }
}

/// The first `k` columns of a border line drawn with glyphs of one column
/// take up the columns of the cells and one more between each two.
proof fn lemma_border_run_columns(fill: char, mid: char, widths: Seq<nat>, k: nat)
    requires
        k <= widths.len(),
        char_columns(fill) == 1,
        char_columns(mid) == 1,
    ensures
        k == 0 ==> text_columns(border_run(fill, mid, widths, k)) == 0,
        k > 0 ==> text_columns(border_run(fill, mid, widths, k)) == cells_columns(widths, k) + k
            - 1,
    decreases k,
{
    if k == 0 {
        assert(border_run(fill, mid, widths, k).len() == 0);
    } else {
        let before = border_run(fill, mid, widths, (k - 1) as nat);
        let joint: Seq<char> = if k > 1 {
            seq![mid]
        } else {
            Seq::empty()
        };
        let run = repeat(fill, widths[k - 1] + 2);
        lemma_border_run_columns(fill, mid, widths, (k - 1) as nat);
        lemma_text_columns_single(mid);
        assert(k > 1 ==> text_columns(joint) == 1);
        assert(k == 1 ==> text_columns(joint) == 0);
        lemma_text_columns_repeat(fill, widths[k - 1] + 2);
        assert((widths[k - 1] + 2) * 1 == widths[k - 1] + 2) by (nonlinear_arith);
        assert(text_columns(run) == widths[k - 1] + 2);
        lemma_text_columns_concat(before, joint);
        lemma_text_columns_concat(before + joint, run);
        assert(border_run(fill, mid, widths, k) == before + joint + run);
    }
}

/// A border line drawn with glyphs of one column is as wide as a content
/// line whose separator takes up one column.
pub proof fn lemma_border_line_columns(
    left: char,
    fill: char,
    mid: char,
    right: char,
    vertical: char,
    widths: Seq<nat>,
)
    requires
        widths.len() > 0,
        char_columns(left) == 1,
        char_columns(fill) == 1,
        char_columns(mid) == 1,
        char_columns(right) == 1,
        char_columns(vertical) == 1,
    ensures
        text_columns(border_line(left, fill, mid, right, widths)) == line_columns(
            vertical,
            widths,
        ),
{
    let run = border_run(fill, mid, widths, widths.len());
    lemma_border_run_columns(fill, mid, widths, widths.len());
    lemma_text_columns_single(left);
    lemma_text_columns_single(right);
    lemma_text_columns_concat(seq![left], run);
    lemma_text_columns_concat(seq![left] + run, seq![right]);
    assert(widths.len() * 1 == widths.len()) by (nonlinear_arith);
}

/// Where every glyph takes up one column, all lines of a table are equally
/// wide: the borders, the separator line and the content lines.
pub proof fn lemma_lines_equally_wide(glyphs: Glyphs, rows: Seq<Seq<Seq<char>>>, a: int, b: int)
    requires
        single_column(glyphs),
        0 <= a < table_lines(glyphs, rows).len(),
        0 <= b < table_lines(glyphs, rows).len(),
    ensures
        text_columns(table_lines(glyphs, rows)[a]) == text_columns(table_lines(glyphs, rows)[b]),
{
    lemma_line_columns(glyphs, rows, a);
    lemma_line_columns(glyphs, rows, b);
}

/// Where every glyph takes up one column, each line of a table is as wide as
/// its content lines.
proof fn lemma_line_columns(glyphs: Glyphs, rows: Seq<Seq<Seq<char>>>, a: int)
    requires
        single_column(glyphs),
        0 <= a < table_lines(glyphs, rows).len(),
    ensures
        text_columns(table_lines(glyphs, rows)[a]) == line_columns(
            glyphs.vertical,
            column_widths(rows),
        ),
{
    let widths = column_widths(rows);
    let lines = table_lines(glyphs, rows);
    lemma_table_lines_shape(glyphs, rows);
    if a == 0 {
        lemma_border_line_columns(
            glyphs.top_left,
            glyphs.horizontal,
            glyphs.top_mid,
            glyphs.top_right,
            glyphs.vertical,
            widths,
        );
    } else if a == lines.len() - 1 {
        lemma_border_line_columns(
            glyphs.bottom_left,
            glyphs.horizontal,
            glyphs.bottom_mid,
            glyphs.bottom_right,
            glyphs.vertical,
            widths,
        );
    } else if a == 2 && rows.len() >= 2 {
        lemma_border_line_columns(
            glyphs.header_left,
            glyphs.header_horizontal,
            glyphs.header_mid,
            glyphs.header_right,
            glyphs.vertical,
            widths,
        );
    } else {
        let i = if a == 1 {
            0
        } else {
            a - 2
        };
        assert(content_line_index(i) == a);
        lemma_content_lines_equally_wide(glyphs, rows, i, i);
    }
}

/// In the text of a rendered table, the content lines of all rows are
/// equally wide.
pub proof fn lemma_rendered_content_lines_equally_wide(
    glyphs: Glyphs,
    rows: Seq<Seq<Seq<char>>>,
    a: int,
    b: int,
)
    requires
        plain_glyphs(glyphs),
        cells_supported(rows),
        column_count(rows) > 0,
        0 <= a < rows.len(),
        0 <= b < rows.len(),
    ensures
        content_line_index(a) < lines_of(rendering(glyphs, rows)).len(),
        content_line_index(b) < lines_of(rendering(glyphs, rows)).len(),
        text_columns(lines_of(rendering(glyphs, rows))[content_line_index(a)]) == text_columns(
            lines_of(rendering(glyphs, rows))[content_line_index(b)],
        ),
{
    lemma_lines_of_rendering(glyphs, rows);
    lemma_table_lines_shape(glyphs, rows);
    lemma_content_lines_equally_wide(glyphs, rows, a, b);
}

/// In the text of a rendered table, separator `k` stands at the same column
/// in the content line of every row: at the column that the widths of the
/// table's columns give it.
pub proof fn lemma_rendered_separators_aligned(
    glyphs: Glyphs,
    rows: Seq<Seq<Seq<char>>>,
    a: int,
    k: nat,
)
    requires
        plain_glyphs(glyphs),
        cells_supported(rows),
        column_count(rows) > 0,
        0 <= a < rows.len(),
        k <= column_count(rows),
    ensures
        content_line_index(a) < lines_of(rendering(glyphs, rows)).len(),
        ({
            let line = lines_of(rendering(glyphs, rows))[content_line_index(a)];
            let index = separator_index(glyphs.vertical, column_widths(rows), rows[a], k);
            &&& 0 <= index < line.len()
            &&& line[index] == glyphs.vertical
            &&& text_columns(line.take(index)) == separator_column(
                glyphs.vertical,
                column_widths(rows),
                k,
            )
        }),
{
    lemma_lines_of_rendering(glyphs, rows);
    lemma_table_lines_shape(glyphs, rows);
    lemma_separators_aligned(glyphs, rows, a, k);
}

/// In the text of a table rendered with glyphs of one column each, all lines
/// are equally wide.
pub proof fn lemma_rendered_lines_equally_wide(
    glyphs: Glyphs,
    rows: Seq<Seq<Seq<char>>>,
    a: int,
    b: int,
)
    requires
        plain_glyphs(glyphs),
        single_column(glyphs),
        cells_supported(rows),
        column_count(rows) > 0,
        0 <= a < lines_of(rendering(glyphs, rows)).len(),
        0 <= b < lines_of(rendering(glyphs, rows)).len(),
    ensures
        text_columns(lines_of(rendering(glyphs, rows))[a]) == text_columns(
            lines_of(rendering(glyphs, rows))[b],
        ),
{
    lemma_lines_of_rendering(glyphs, rows);
    lemma_lines_equally_wide(glyphs, rows, a, b);
}

/// In the text of a table rendered with `ASCII_FULL`, all lines are equally
/// wide.
pub proof fn lemma_ascii_full_lines_equally_wide(rows: Seq<Seq<Seq<char>>>, a: int, b: int)
    requires
        cells_supported(rows),
        column_count(rows) > 0,
        0 <= a < lines_of(rendering(ascii_full_glyphs(), rows)).len(),
        0 <= b < lines_of(rendering(ascii_full_glyphs(), rows)).len(),
    ensures
        text_columns(lines_of(rendering(ascii_full_glyphs(), rows))[a]) == text_columns(
            lines_of(rendering(ascii_full_glyphs(), rows))[b],
        ),
{
    lemma_ascii_full_single_column();
    lemma_registry_entries();
    lemma_preset_glyphs_plain(ASCII_FULL@);
    lemma_rendered_lines_equally_wide(ascii_full_glyphs(), rows, a, b);
}

} // verus!
