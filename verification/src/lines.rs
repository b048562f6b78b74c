//! The lines of a rendered text.
//!
//! A rendered table is handed out as one text. Cut at its line feeds, the
//! text falls into the very lines that the frame is made of, so what holds of
//! the lines of the frame holds of the lines of the text.

use crate::content::{cells_supported, has_newline};
use crate::frame::{
    body_lines,
    border_line,
    border_run,
    content_line,
    content_run,
    fill_count,
    join_lines,
    padded_cell,
    rendering,
    table_lines,
};
use crate::layout::{cell_at, column_count, column_widths};
use crate::preset::{preset_glyphs, Glyphs};
use crate::text::repeat;
use vstd::prelude::*;

verus! {

/// The lines of a text: the parts between its line feeds. A text without a
/// line feed is one line, and so is the empty text.
pub open spec fn lines_of(text: Seq<char>) -> Seq<Seq<char>>
    decreases text.len(),
{
    if text.len() == 0 {
        seq![Seq::empty()]
    } else {
        let front = lines_of(text.drop_last());
        if text.last() == '\n' {
            front.push(Seq::empty())
        } else {
            front.drop_last().push(front.last().push(text.last()))
        }
    }
}

/// Whether no glyph is a line feed.
pub open spec fn plain_glyphs(glyphs: Glyphs) -> bool {
    &&& glyphs.top_left != '\n'
    &&& glyphs.top_mid != '\n'
    &&& glyphs.top_right != '\n'
    &&& glyphs.horizontal != '\n'
    &&& glyphs.vertical != '\n'
    &&& glyphs.header_left != '\n'
    &&& glyphs.header_mid != '\n'
    &&& glyphs.header_right != '\n'
    &&& glyphs.header_horizontal != '\n'
    &&& glyphs.bottom_left != '\n'
    &&& glyphs.bottom_mid != '\n'
    &&& glyphs.bottom_right != '\n'
}

/// No glyph of a preset is a line feed.
pub proof fn lemma_preset_glyphs_plain(id: Seq<char>)
    ensures
        preset_glyphs(id) matches Some(glyphs) ==> plain_glyphs(glyphs),
{
}

/// Two texts set one after the other hold a line feed exactly when one of
/// them does.
pub proof fn lemma_has_newline_concat(a: Seq<char>, b: Seq<char>)
    ensures
        has_newline(a + b) <==> has_newline(a) || has_newline(b),
{
    if has_newline(a) {
        let k = choose|k: int| 0 <= k < a.len() && a[k] == '\n';
        assert((a + b)[k] == '\n');
    }
    if has_newline(b) {
        let k = choose|k: int| 0 <= k < b.len() && b[k] == '\n';
        assert((a + b)[a.len() + k] == '\n');
    }
    if has_newline(a + b) {
        let k = choose|k: int| 0 <= k < (a + b).len() && (a + b)[k] == '\n';
        if k < a.len() {
            assert(a[k] == '\n');
        } else {
            assert(b[k - a.len()] == '\n');
        }
    }
}

/// A run of a character that is no line feed holds no line feed.
proof fn lemma_repeat_plain(c: char, n: nat)
    requires
        c != '\n',
    ensures
        !has_newline(repeat(c, n)),
{
}

/// A text of one character that is no line feed holds no line feed.
proof fn lemma_single_plain(c: char)
    requires
        c != '\n',
    ensures
        !has_newline(seq![c]),
{
}

/// A text has a line at least.
proof fn lemma_lines_of_nonempty(text: Seq<char>)
    ensures
        lines_of(text).len() >= 1,
    decreases text.len(),
{
    if text.len() > 0 {
        lemma_lines_of_nonempty(text.drop_last());
    }
}

/// Text without a line feed, set after a text, lengthens its last line.
pub proof fn lemma_lines_of_longer_line(text: Seq<char>, more: Seq<char>)
    requires
        !has_newline(more),
    ensures
        lines_of(text).len() >= 1,
        lines_of(text + more) == lines_of(text).drop_last().push(lines_of(text).last() + more),
    decreases more.len(),
{
    lemma_lines_of_nonempty(text);
    let lines = lines_of(text);
    if more.len() == 0 {
        assert(text + more =~= text);
        assert(lines.last() + more =~= lines.last());
        assert(lines.drop_last().push(lines.last()) =~= lines);
    } else {
        let front = more.drop_last();
        assert(!has_newline(front)) by {
            if has_newline(front) {
                let k = choose|k: int| 0 <= k < front.len() && front[k] == '\n';
                assert(more[k] == '\n');
            }
        }
        assert(more.last() != '\n') by {
            if more.last() == '\n' {
                assert(more[more.len() - 1] == '\n');
            }
        }
        lemma_lines_of_longer_line(text, front);
        assert((text + more).drop_last() =~= text + front);
        assert((text + more).last() == more.last());
        let grown = lines.drop_last().push(lines.last() + front);
        assert(grown.drop_last() =~= lines.drop_last());
        assert((lines.last() + front).push(more.last()) =~= lines.last() + more);
    }
}

/// A line feed set after a text opens a new, empty line.
proof fn lemma_lines_of_line_feed(text: Seq<char>)
    ensures
        lines_of(text + seq!['\n']) == lines_of(text).push(Seq::empty()),
{
    assert((text + seq!['\n']).drop_last() =~= text);
}

/// Lines without line feeds, joined and cut again, are the same lines.
pub proof fn lemma_lines_of_join(lines: Seq<Seq<char>>)
    requires
        lines.len() >= 1,
        forall|k: int| 0 <= k < lines.len() ==> !has_newline(#[trigger] lines[k]),
    ensures
        lines_of(join_lines(lines)) == lines,
    decreases lines.len(),
{
    if lines.len() == 1 {
        lemma_lines_of_longer_line(Seq::empty(), lines[0]);
        assert(Seq::<char>::empty() + lines[0] =~= lines[0]);
        assert(lines_of(Seq::<char>::empty()) == seq![Seq::<char>::empty()]);
        assert(seq![Seq::<char>::empty()].drop_last().push(lines[0]) =~= lines);
    } else {
        let front = lines.drop_last();
        assert forall|k: int| 0 <= k < front.len() implies !has_newline(#[trigger] front[k]) by {
            assert(front[k] == lines[k]);
        }
        lemma_lines_of_join(front);
        let joined = join_lines(front);
        lemma_lines_of_line_feed(joined);
        lemma_lines_of_longer_line(joined + seq!['\n'], lines.last());
        assert(Seq::<char>::empty() + lines.last() =~= lines.last());
        assert(front.push(Seq::empty()).drop_last() =~= front);
        assert(front.push(lines.last()) =~= lines);
    }
}

/// A border line drawn with glyphs that are no line feeds holds no line feed.
pub proof fn lemma_border_line_plain(
    left: char,
    fill: char,
    mid: char,
    right: char,
    widths: Seq<nat>,
)
    requires
        left != '\n',
        fill != '\n',
        mid != '\n',
        right != '\n',
    ensures
        !has_newline(border_line(left, fill, mid, right, widths)),
{
    let run = border_run(fill, mid, widths, widths.len());
    lemma_border_run_plain(fill, mid, widths, widths.len());
    lemma_single_plain(left);
    lemma_single_plain(right);
    lemma_has_newline_concat(seq![left], run);
    lemma_has_newline_concat(seq![left] + run, seq![right]);
}

/// The first `k` columns of such a border line hold no line feed.
proof fn lemma_border_run_plain(fill: char, mid: char, widths: Seq<nat>, k: nat)
    requires
        fill != '\n',
        mid != '\n',
    ensures
        !has_newline(border_run(fill, mid, widths, k)),
    decreases k,
{
    if k > 0 {
        let before = border_run(fill, mid, widths, (k - 1) as nat);
        let joint: Seq<char> = if k > 1 {
            seq![mid]
        } else {
            Seq::empty()
        };
        lemma_border_run_plain(fill, mid, widths, (k - 1) as nat);
        lemma_single_plain(mid);
        lemma_repeat_plain(fill, widths[k - 1] + 2);
        lemma_has_newline_concat(before, joint);
        lemma_has_newline_concat(before + joint, repeat(fill, widths[k - 1] + 2));
    }
}

/// The content line of a row whose cells hold no line feed, drawn with a
/// separator that is no line feed, holds no line feed.
pub proof fn lemma_content_line_plain(vertical: char, widths: Seq<nat>, row: Seq<Seq<char>>)
    requires
        vertical != '\n',
        forall|j: int| 0 <= j < row.len() ==> !has_newline(#[trigger] row[j]),
    ensures
        !has_newline(content_line(vertical, widths, row)),
{
    lemma_content_run_plain(vertical, widths, row, widths.len());
}

/// The first `k` columns of such a content line hold no line feed.
proof fn lemma_content_run_plain(
    vertical: char,
    widths: Seq<nat>,
    row: Seq<Seq<char>>,
    k: nat,
)
    requires
        vertical != '\n',
        forall|j: int| 0 <= j < row.len() ==> !has_newline(#[trigger] row[j]),
    ensures
        !has_newline(content_run(vertical, widths, row, k)),
    decreases k,
{
    if k > 0 {
        let before = content_run(vertical, widths, row, (k - 1) as nat);
        let cell = cell_at(row, k - 1);
        let padded = padded_cell(cell, widths[k - 1]);
        lemma_content_run_plain(vertical, widths, row, (k - 1) as nat);
        if k - 1 < row.len() {
            assert(!has_newline(row[k - 1]));
        }
        lemma_padded_cell_plain(cell, widths[k - 1]);
        lemma_single_plain(vertical);
        lemma_has_newline_concat(before, padded);
        lemma_has_newline_concat(before + padded, seq![vertical]);
    }
}

/// A padded cell holds a line feed only where the cell does.
proof fn lemma_padded_cell_plain(cell: Seq<char>, width: nat)
    requires
        !has_newline(cell),
    ensures
        !has_newline(padded_cell(cell, width)),
{
    let fill = repeat(' ', fill_count(cell, width));
    lemma_single_plain(' ');
    lemma_repeat_plain(' ', fill_count(cell, width));
    lemma_has_newline_concat(seq![' '], cell);
    lemma_has_newline_concat(seq![' '] + cell, fill);
    lemma_has_newline_concat(seq![' '] + cell + fill, seq![' ']);
}

/// No line of a table holds a line feed, where no glyph is one and no cell
/// holds one.
pub proof fn lemma_table_lines_plain(glyphs: Glyphs, rows: Seq<Seq<Seq<char>>>)
    requires
        plain_glyphs(glyphs),
        cells_supported(rows),
    ensures
        forall|k: int|
            0 <= k < table_lines(glyphs, rows).len() ==> !has_newline(
                #[trigger] table_lines(glyphs, rows)[k],
            ),
{
    let widths = column_widths(rows);
    let body = body_lines(glyphs, widths, rows, rows.len());
    lemma_body_lines_plain(glyphs, widths, rows, rows.len());
    lemma_border_line_plain(
        glyphs.top_left,
        glyphs.horizontal,
        glyphs.top_mid,
        glyphs.top_right,
        widths,
    );
    lemma_border_line_plain(
        glyphs.bottom_left,
        glyphs.horizontal,
        glyphs.bottom_mid,
        glyphs.bottom_right,
        widths,
    );
    assert forall|k: int| 0 <= k < table_lines(glyphs, rows).len() implies !has_newline(
        #[trigger] table_lines(glyphs, rows)[k],
    ) by {
        if 0 < k <= body.len() {
            assert(table_lines(glyphs, rows)[k] == body[k - 1]);
        }
    }
}

/// None of the lines between the borders holds a line feed.
proof fn lemma_body_lines_plain(
    glyphs: Glyphs,
    widths: Seq<nat>,
    rows: Seq<Seq<Seq<char>>>,
    n: nat,
)
    requires
        plain_glyphs(glyphs),
        cells_supported(rows),
        n <= rows.len(),
    ensures
        forall|k: int|
            0 <= k < body_lines(glyphs, widths, rows, n).len() ==> !has_newline(
                #[trigger] body_lines(glyphs, widths, rows, n)[k],
            ),
    decreases n,
{
    if n > 0 {
        let before = body_lines(glyphs, widths, rows, (n - 1) as nat);
        let lines = body_lines(glyphs, widths, rows, n);
        let row = rows[n - 1];
        lemma_body_lines_plain(glyphs, widths, rows, (n - 1) as nat);
        lemma_border_line_plain(
            glyphs.header_left,
            glyphs.header_horizontal,
            glyphs.header_mid,
            glyphs.header_right,
            widths,
        );
        assert forall|j: int| 0 <= j < row.len() implies !has_newline(#[trigger] row[j]) by {
            assert(!has_newline(rows[n - 1][j]));
        }
        lemma_content_line_plain(glyphs.vertical, widths, row);
        assert forall|k: int| 0 <= k < lines.len() implies !has_newline(#[trigger] lines[k]) by {
            if k < before.len() {
                assert(lines[k] == before[k]);
            }
        }
    }
}

/// The lines of a rendered table are the lines of its frame: the text of a
/// table that has columns, cut at its line feeds, gives back the borders, the
/// separator line and the content lines, in their order.
pub proof fn lemma_lines_of_rendering(glyphs: Glyphs, rows: Seq<Seq<Seq<char>>>)
    requires
        plain_glyphs(glyphs),
        cells_supported(rows),
        column_count(rows) > 0,
    ensures
        lines_of(rendering(glyphs, rows)) == table_lines(glyphs, rows),
{
    lemma_table_lines_plain(glyphs, rows);
    lemma_lines_of_join(table_lines(glyphs, rows));
}

} // verus!
