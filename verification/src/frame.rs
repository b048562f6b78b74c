//! The lines of a table: border lines, content lines, and the whole frame.
//!
//! A rendered table is a top border, one content line for each row, a
//! separator line under the first row where more rows follow it, and a bottom
//! border. The lines are joined by line feeds; no line feed ends the text. A
//! table without columns is rendered as the empty text.

use crate::content::{cells_supported, check_cells};
use crate::error::RenderError;
use crate::layout::{cell_at, column_count, column_widths, measure_columns};
use crate::preset::{lookup_preset, preset_glyphs, utf8_full_glyphs, Glyphs, UTF8_FULL};
use crate::text::{push_repeated, repeat};
use crate::width::{display_width, text_columns};
use vstd::prelude::*;
use vstd::utf8::encode_utf8;

verus! {

/// Column widths as natural numbers.
pub open spec fn as_naturals(widths: Seq<u128>) -> Seq<nat> {
    Seq::new(widths.len(), |j: int| widths[j] as nat)
}

/// The part of a border line that spans the first `k` columns: for each
/// column a run of `fill` as long as the column is wide and two more, with
/// `mid` where two columns meet.
pub open spec fn border_run(fill: char, mid: char, widths: Seq<nat>, k: nat) -> Seq<char>
    decreases k,
{
    if k == 0 {
        Seq::empty()
    } else {
        border_run(fill, mid, widths, (k - 1) as nat) + (if k > 1 {
            seq![mid]
        } else {
            Seq::empty()
        }) + repeat(fill, widths[k - 1] + 2)
    }
}

/// A border line over columns of the given widths.
pub open spec fn border_line(left: char, fill: char, mid: char, right: char, widths: Seq<nat>)
    -> Seq<char> {
    seq![left] + border_run(fill, mid, widths, widths.len()) + seq![right]
}

/// The number of spaces that fill a cell up to the width of its column. A
/// cell that is wider than the column gets none.
pub open spec fn fill_count(cell: Seq<char>, width: nat) -> nat {
    if width >= text_columns(cell) {
        (width - text_columns(cell)) as nat
    } else {
        0
    }
}

/// A cell as it stands in its column: a space, the text, the spaces that
/// fill it up to the width of the column, and a space.
pub open spec fn padded_cell(cell: Seq<char>, width: nat) -> Seq<char> {
    seq![' '] + cell + repeat(' ', fill_count(cell, width)) + seq![' ']
}

/// The part of a content line that spans the first `k` columns: a separator,
/// then each padded cell followed by a separator.
pub open spec fn content_run(vertical: char, widths: Seq<nat>, row: Seq<Seq<char>>, k: nat) -> Seq<
    char,
>
    decreases k,
{
    if k == 0 {
        seq![vertical]
    } else {
        content_run(vertical, widths, row, (k - 1) as nat) + padded_cell(
            cell_at(row, k - 1),
            widths[k - 1],
        ) + seq![vertical]
    }
}

/// The content line of a row over columns of the given widths.
pub open spec fn content_line(vertical: char, widths: Seq<nat>, row: Seq<Seq<char>>) -> Seq<char> {
    content_run(vertical, widths, row, widths.len())
}

/// The top border of a table.
pub open spec fn top_border(glyphs: Glyphs, widths: Seq<nat>) -> Seq<char> {
    border_line(glyphs.top_left, glyphs.horizontal, glyphs.top_mid, glyphs.top_right, widths)
}

/// The separator line under the first row.
pub open spec fn header_separator(glyphs: Glyphs, widths: Seq<nat>) -> Seq<char> {
    border_line(
        glyphs.header_left,
        glyphs.header_horizontal,
        glyphs.header_mid,
        glyphs.header_right,
        widths,
    )
}

/// The bottom border of a table.
pub open spec fn bottom_border(glyphs: Glyphs, widths: Seq<nat>) -> Seq<char> {
    border_line(
        glyphs.bottom_left,
        glyphs.horizontal,
        glyphs.bottom_mid,
        glyphs.bottom_right,
        widths,
    )
}

/// The lines between the borders for the first `n` rows: the content line of
/// each row in order, and the separator line before that of the second row.
pub open spec fn body_lines(glyphs: Glyphs, widths: Seq<nat>, rows: Seq<Seq<Seq<char>>>, n: nat)
    -> Seq<Seq<char>>
    decreases n,
{
    if n == 0 {
        Seq::empty()
    } else {
        body_lines(glyphs, widths, rows, (n - 1) as nat) + (if n == 2 {
            seq![header_separator(glyphs, widths)]
        } else {
            Seq::empty()
        }) + seq![content_line(glyphs.vertical, widths, rows[n - 1])]
    }
}

/// The lines of a rendered table. A table without columns has none.
pub open spec fn table_lines(glyphs: Glyphs, rows: Seq<Seq<Seq<char>>>) -> Seq<Seq<char>> {
    let widths = column_widths(rows);
    if widths.len() == 0 {
        Seq::empty()
    } else {
        seq![top_border(glyphs, widths)] + body_lines(glyphs, widths, rows, rows.len())
            + seq![bottom_border(glyphs, widths)]
    }
}

/// The lines as one text, with a line feed between each two.
pub open spec fn join_lines(lines: Seq<Seq<char>>) -> Seq<char>
    decreases lines.len(),
{
    if lines.len() == 0 {
        Seq::empty()
    } else if lines.len() == 1 {
        lines[0]
    } else {
        join_lines(lines.drop_last()) + seq!['\n'] + lines.last()
    }
}

/// The text of a rendered table.
pub open spec fn rendering(glyphs: Glyphs, rows: Seq<Seq<Seq<char>>>) -> Seq<char> {
    join_lines(table_lines(glyphs, rows))
}

/// What rendering with given glyphs yields: the text of the table, or the
/// error for a cell that cannot be laid out.
pub open spec fn render_with_outcome(glyphs: Glyphs, rows: Seq<Seq<Seq<char>>>) -> Result<
    Seq<char>,
    RenderError,
> {
    if cells_supported(rows) {
        Ok(rendering(glyphs, rows))
    } else {
        Err(RenderError::UnsupportedCellContent)
    }
}

/// What rendering with a named preset yields. An unknown preset is reported
/// before the cells are looked at.
pub open spec fn render_outcome(preset: Seq<char>, rows: Seq<Seq<Seq<char>>>) -> Result<
    Seq<char>,
    RenderError,
> {
    match preset_glyphs(preset) {
        Some(glyphs) => render_with_outcome(glyphs, rows),
        None => Err(RenderError::InvalidPreset),
    }
}

/// A result of rendering, with the text in place of the `String`.
pub open spec fn outcome_view(result: Result<String, RenderError>) -> Result<
    Seq<char>,
    RenderError,
> {
    match result {
        Ok(text) => Ok(text@),
        Err(error) => Err(error),
    }
}

/// The row that `row` stands for in a table of `count` columns: the same
/// cells, and empty cells where `row` ends early.
pub open spec fn full_row(row: Seq<Seq<char>>, count: nat) -> Seq<Seq<char>> {
    Seq::new(count, |j: int| cell_at(row, j))
}

/// Where the content line of row `i` stands among the lines of a table: after
/// the top border, and for every row but the first after the separator line.
pub open spec fn content_line_index(i: int) -> int {
    if i == 0 {
        1
    } else {
        i + 2
    }
}

/// How many lines a table of `count` rows has, if it has columns.
pub open spec fn line_count(count: nat) -> nat {
    if count >= 2 {
        count + 3
    } else {
        count + 2
    }
}

/// A short row is rendered as the row of full length that has empty cells
/// where the short row ends.
pub proof fn lemma_short_row_is_padded(vertical: char, widths: Seq<nat>, row: Seq<Seq<char>>)
    ensures
        content_line(vertical, widths, row) == content_line(
            vertical,
            widths,
            full_row(row, widths.len()),
        ),
{
    lemma_content_run_of_full_row(vertical, widths, row, widths.len());
}

/// The first `k` columns of a row's content line are those of the row of
/// full length.
proof fn lemma_content_run_of_full_row(
    vertical: char,
    widths: Seq<nat>,
    row: Seq<Seq<char>>,
    k: nat,
)
    requires
        k <= widths.len(),
    ensures
        content_run(vertical, widths, row, k) == content_run(
            vertical,
            widths,
            full_row(row, widths.len()),
            k,
        ),
    decreases k,
{
    if k > 0 {
        lemma_content_run_of_full_row(vertical, widths, row, (k - 1) as nat);
        assert(cell_at(full_row(row, widths.len()), k - 1) == cell_at(row, k - 1));
    }
}

/// The lines between the borders: one for each row, the separator line as
/// the second where there are two rows or more, and each row's content line
/// at its place.
proof fn lemma_body_lines_shape(
    glyphs: Glyphs,
    widths: Seq<nat>,
    rows: Seq<Seq<Seq<char>>>,
    n: nat,
)
    ensures
        body_lines(glyphs, widths, rows, n).len() == line_count(n) - 2,
        n >= 2 ==> body_lines(glyphs, widths, rows, n)[1] == header_separator(glyphs, widths),
        forall|i: int|
            0 <= i < n ==> body_lines(glyphs, widths, rows, n)[#[trigger] content_line_index(i)
                - 1] == content_line(glyphs.vertical, widths, rows[i]),
    decreases n,
{
    if n > 0 {
        lemma_body_lines_shape(glyphs, widths, rows, (n - 1) as nat);
        let before = body_lines(glyphs, widths, rows, (n - 1) as nat);
        let lines = body_lines(glyphs, widths, rows, n);
        assert forall|i: int| 0 <= i < n implies lines[#[trigger] content_line_index(i) - 1]
            == content_line(glyphs.vertical, widths, rows[i]) by {
            if i < n - 1 {
                assert(lines[content_line_index(i) - 1] == before[content_line_index(i) - 1]);
            }
        }
    }
}

/// The lines of a table that has columns: the top border, the bottom border,
/// between them a content line for each row, and under the first row the
/// separator line where more rows follow.
pub proof fn lemma_table_lines_shape(glyphs: Glyphs, rows: Seq<Seq<Seq<char>>>)
    requires
        column_count(rows) > 0,
    ensures
        table_lines(glyphs, rows).len() == line_count(rows.len()),
        table_lines(glyphs, rows)[0] == top_border(glyphs, column_widths(rows)),
        table_lines(glyphs, rows).last() == bottom_border(glyphs, column_widths(rows)),
        rows.len() >= 2 ==> table_lines(glyphs, rows)[2] == header_separator(
            glyphs,
            column_widths(rows),
        ),
        forall|i: int|
            0 <= i < rows.len() ==> table_lines(glyphs, rows)[#[trigger] content_line_index(i)]
                == content_line(glyphs.vertical, column_widths(rows), rows[i]),
{
    let widths = column_widths(rows);
    lemma_body_lines_shape(glyphs, widths, rows, rows.len());
    let body = body_lines(glyphs, widths, rows, rows.len());
    assert forall|i: int| 0 <= i < rows.len() implies table_lines(
        glyphs,
        rows,
    )[#[trigger] content_line_index(i)] == content_line(glyphs.vertical, widths, rows[i]) by {
        assert(table_lines(glyphs, rows)[content_line_index(i)] == body[content_line_index(i)
            - 1]);
    }
}

/// A table without columns is rendered as the empty text.
pub proof fn lemma_no_columns_no_text(glyphs: Glyphs, rows: Seq<Seq<Seq<char>>>)
    requires
        column_count(rows) == 0,
    ensures
        rendering(glyphs, rows) == Seq::<char>::empty(),
{
}

/// A table without rows is rendered, and as the empty text, whatever the
/// glyphs.
pub proof fn lemma_no_rows_no_text(glyphs: Glyphs)
    ensures
        render_with_outcome(glyphs, Seq::empty()) == Ok::<Seq<char>, RenderError>(Seq::empty()),
{
    assert(column_count(Seq::<Seq<Seq<char>>>::empty()) == 0);
}

/// When rendering succeeds and when it fails: it yields a text exactly for a
/// known preset and cells without line feeds, the error for the preset
/// exactly for an unknown preset, and the error for the cells exactly for a
/// known preset and a cell that holds a line feed.
pub proof fn lemma_render_outcome_cases(preset: Seq<char>, rows: Seq<Seq<Seq<char>>>)
    ensures
        render_outcome(preset, rows) is Ok <==> preset_glyphs(preset) is Some && cells_supported(
            rows,
        ),
        render_outcome(preset, rows) is Ok ==> render_outcome(preset, rows)->Ok_0 == rendering(
            preset_glyphs(preset)->0,
            rows,
        ),
        render_outcome(preset, rows) == Err::<Seq<char>, RenderError>(RenderError::InvalidPreset)
            <==> preset_glyphs(preset) is None,
        render_outcome(preset, rows) == Err::<Seq<char>, RenderError>(
            RenderError::UnsupportedCellContent,
        ) <==> preset_glyphs(preset) is Some && !cells_supported(rows),
{
}

/// Rendering is a function of the preset and the rows: two results for the
/// same input hold the same error or the same text, byte for byte.
pub proof fn lemma_render_deterministic(
    preset: Seq<char>,
    rows: Seq<Seq<Seq<char>>>,
    first: Result<String, RenderError>,
    second: Result<String, RenderError>,
)
    requires
        outcome_view(first) == render_outcome(preset, rows),
        outcome_view(second) == render_outcome(preset, rows),
    ensures
        outcome_view(first) == outcome_view(second),
        first is Ok <==> second is Ok,
        first is Ok ==> first->Ok_0@ == second->Ok_0@ && encode_utf8(first->Ok_0@) == encode_utf8(
            second->Ok_0@,
        ),
        first is Err ==> first->Err_0 == second->Err_0,
{
}

/// Joining one more line to a text that has lines adds a line feed and the
/// line.
proof fn lemma_join_push(lines: Seq<Seq<char>>, line: Seq<char>)
    requires
        lines.len() > 0,
    ensures
        join_lines(lines.push(line)) == join_lines(lines) + seq!['\n'] + line,
{
    assert(lines.push(line).drop_last() =~= lines);
}

/// Appends a border line to `out`.
pub fn push_border_line(
    out: &mut String,
    left: char,
    fill: char,
    mid: char,
    right: char,
    widths: &Vec<u128>,
)
    ensures
        final(out)@ == old(out)@ + border_line(left, fill, mid, right, as_naturals(widths@)),
{
    let ghost naturals = as_naturals(widths@);
    out.push(left);
    for j in 0..widths.len()
        invariant
            naturals == as_naturals(widths@),
            out@ == old(out)@ + seq![left] + border_run(fill, mid, naturals, j as nat),
    {
        let ghost before = out@;
        if j > 0 {
            out.push(mid);
        }
        out.push(fill);
        push_repeated(out, fill, widths[j]);
        out.push(fill);
        proof {
            let run = repeat(fill, naturals[j as int] + 2);
            assert(run =~= seq![fill] + repeat(fill, widths[j as int] as nat) + seq![fill]);
            assert(out@ =~= before + (if j > 0 {
                seq![mid]
            } else {
                Seq::empty()
            }) + run);
            assert(out@ =~= old(out)@ + seq![left] + border_run(
                fill,
                mid,
                naturals,
                (j + 1) as nat,
            ));
        }
    }
    out.push(right);
    proof {
        assert(out@ =~= old(out)@ + border_line(left, fill, mid, right, naturals));
    }
}

/// Appends the content line of `row` to `out`.
pub fn push_content_line(out: &mut String, vertical: char, widths: &Vec<u128>, row: &Vec<String>)
    ensures
        final(out)@ == old(out)@ + content_line(vertical, as_naturals(widths@), row.deep_view()),
{
    let ghost naturals = as_naturals(widths@);
    out.push(vertical);
    for j in 0..widths.len()
        invariant
            naturals == as_naturals(widths@),
            out@ == old(out)@ + content_run(vertical, naturals, row.deep_view(), j as nat),
    {
        let ghost before = out@;
        let ghost cell = cell_at(row.deep_view(), j as int);
        out.push(' ');
        let mut used: u128 = 0;
        if j < row.len() {
            let text = row[j].as_str();
            out.append(text);
            used = display_width(text);
        }
        let fill: u128 = if widths[j] >= used {
            widths[j] - used
        } else {
            0
        };
        push_repeated(out, ' ', fill);
        out.push(' ');
        out.push(vertical);
        proof {
            assert(used == text_columns(cell));
            assert(fill == fill_count(cell, naturals[j as int]));
            assert(out@ =~= before + padded_cell(cell, naturals[j as int]) + seq![vertical]);
            assert(out@ =~= old(out)@ + content_run(
                vertical,
                naturals,
                row.deep_view(),
                (j + 1) as nat,
            ));
        }
    }
}

/// Renders a table with the given glyphs.
///
/// The columns are as many as the longest row has cells, and a shorter row
/// has empty cells where it ends early. Each column is as wide as its widest
/// cell, and at least 1. Each cell is set to the left of its column. A table
/// without columns is rendered as the empty text.
pub fn render_with(glyphs: &Glyphs, rows: &Vec<Vec<String>>) -> (result: Result<
    String,
    RenderError,
>)
    ensures
        outcome_view(result) == render_with_outcome(*glyphs, rows.deep_view()),
        result is Ok <==> cells_supported(rows.deep_view()),
{
    if !check_cells(rows) {
        return Err(RenderError::UnsupportedCellContent);
    }
    let widths = measure_columns(rows);
    let mut out = String::new();
    let ghost table = rows.deep_view();
    let ghost naturals = as_naturals(widths@);
    proof {
        assert(naturals =~= column_widths(table));
    }
    if widths.len() == 0 {
        return Ok(out);
    }
    let ghost top = top_border(*glyphs, naturals);
    push_border_line(
        &mut out,
        glyphs.top_left,
        glyphs.horizontal,
        glyphs.top_mid,
        glyphs.top_right,
        &widths,
    );
    proof {
        assert(out@ =~= top);
    }
    for i in 0..rows.len()
        invariant
            table == rows.deep_view(),
            naturals == as_naturals(widths@),
            top == top_border(*glyphs, naturals),
            out@ == join_lines(seq![top] + body_lines(*glyphs, naturals, table, i as nat)),
    {
        let ghost lines = seq![top] + body_lines(*glyphs, naturals, table, i as nat);
        let ghost separator = header_separator(*glyphs, naturals);
        let ghost content = content_line(glyphs.vertical, naturals, table[i as int]);
        out.push('\n');
        if i == 1 {
            push_border_line(
                &mut out,
                glyphs.header_left,
                glyphs.header_horizontal,
                glyphs.header_mid,
                glyphs.header_right,
                &widths,
            );
            out.push('\n');
        }
        push_content_line(&mut out, glyphs.vertical, &widths, &rows[i]);
        proof {
            if i == 1 {
                lemma_join_push(lines, separator);
                lemma_join_push(lines.push(separator), content);
                assert(lines.push(separator).push(content) =~= seq![top] + body_lines(
                    *glyphs,
                    naturals,
                    table,
                    (i + 1) as nat,
                ));
                assert(out@ =~= join_lines(lines) + seq!['\n'] + separator + seq!['\n']
                    + content);
            } else {
                lemma_join_push(lines, content);
                assert(lines.push(content) =~= seq![top] + body_lines(
                    *glyphs,
                    naturals,
                    table,
                    (i + 1) as nat,
                ));
                assert(out@ =~= join_lines(lines) + seq!['\n'] + content);
            }
        }
    }
    let ghost lines = seq![top] + body_lines(*glyphs, naturals, table, rows.len() as nat);
    out.push('\n');
    push_border_line(
        &mut out,
        glyphs.bottom_left,
        glyphs.horizontal,
        glyphs.bottom_mid,
        glyphs.bottom_right,
        &widths,
    );
    proof {
        let bottom = bottom_border(*glyphs, naturals);
        lemma_join_push(lines, bottom);
        assert(lines.push(bottom) =~= table_lines(*glyphs, table));
        assert(out@ =~= join_lines(lines) + seq!['\n'] + bottom);
    }
    Ok(out)
}

/// Renders a table with the glyphs of a named preset.
///
/// An identifier that is not in the registry is an error, whatever the rows
/// hold. A cell that holds a line feed is an error too. Otherwise the result
/// is the text of the table, as `render_with` lays it out with the glyphs of
/// the preset.
pub fn render(preset: &str, rows: &Vec<Vec<String>>) -> (result: Result<String, RenderError>)
    ensures
        outcome_view(result) == render_outcome(preset@, rows.deep_view()),
        result is Ok <==> preset_glyphs(preset@) is Some && cells_supported(rows.deep_view()),
{
    match lookup_preset(preset) {
        Some(glyphs) => render_with(&glyphs, rows),
        None => Err(RenderError::InvalidPreset),
    }
}

/// Renders a table with the preset `UTF8_FULL`. The preset is in the
/// registry, so the only error left is that for a cell with a line feed.
pub fn render_table(rows: Vec<Vec<String>>) -> (result: Result<String, RenderError>)
    ensures
        outcome_view(result) == render_outcome(UTF8_FULL@, rows.deep_view()),
        outcome_view(result) == render_with_outcome(utf8_full_glyphs(), rows.deep_view()),
        result is Ok <==> cells_supported(rows.deep_view()),
{
    render(UTF8_FULL, &rows)
}

} // verus!
