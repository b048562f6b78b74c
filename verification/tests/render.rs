use pycomfy::{render, render_table, render_with, lookup_preset, Glyphs, RenderError};
use pycomfy::{ASCII_FULL, UTF8_FULL};

fn table(rows: &[&[&str]]) -> Vec<Vec<String>> {
    rows.iter()
        .map(|row| row.iter().map(|cell| cell.to_string()).collect())
        .collect()
}

fn people() -> Vec<Vec<String>> {
    table(&[&["Name", "Age"], &["Alice", "30"], &["Bob", "25"]])
}

#[test]
fn utf8_full_end_to_end() {
    let text = render("UTF8_FULL", &people()).unwrap();
    let expected = "\
┌───────┬─────┐
│ Name  │ Age │
╞═══════╪═════╡
│ Alice │ 30  │
│ Bob   │ 25  │
└───────┴─────┘";
    assert_eq!(text, expected);
}

#[test]
fn utf8_full_lines_in_order() {
    let text = render(UTF8_FULL, &people()).unwrap();
    let lines: Vec<&str> = text.split('\n').collect();
    assert_eq!(lines.len(), 6);
    assert_eq!(lines[0], "┌───────┬─────┐");
    assert_eq!(lines[1], "│ Name  │ Age │");
    assert_eq!(lines[2], "╞═══════╪═════╡");
    assert_eq!(lines[3], "│ Alice │ 30  │");
    assert_eq!(lines[4], "│ Bob   │ 25  │");
    assert_eq!(lines[5], "└───────┴─────┘");
}

#[test]
fn ascii_full_end_to_end() {
    let text = render(ASCII_FULL, &people()).unwrap();
    let expected = "\
+-------+-----+
| Name  | Age |
+=======+=====+
| Alice | 30  |
| Bob   | 25  |
+-------+-----+";
    assert_eq!(text, expected);
}

#[test]
fn render_table_uses_utf8_full() {
    let text = render_table(people()).unwrap();
    assert_eq!(Ok(text), render("UTF8_FULL", &people()));
}

#[test]
fn no_line_feed_at_the_end() {
    let text = render(UTF8_FULL, &people()).unwrap();
    assert!(!text.ends_with('\n'));
    assert!(!text.starts_with('\n'));
}

#[test]
fn same_input_same_output() {
    let rows = table(&[&["a", "bb"], &["日本語", ""], &["x"]]);
    let first = render(UTF8_FULL, &rows);
    let second = render(UTF8_FULL, &rows);
    assert_eq!(first, second);
    assert_eq!(first.unwrap().as_bytes(), second.unwrap().as_bytes());
    assert_eq!(render("missing", &rows), render("missing", &rows));
}

#[test]
fn zero_rows_render_as_empty_text() {
    let rows: Vec<Vec<String>> = Vec::new();
    assert_eq!(render(UTF8_FULL, &rows), Ok(String::new()));
    assert_eq!(render(ASCII_FULL, &rows), Ok(String::new()));
    assert_eq!(render_table(rows), Ok(String::new()));
}

#[test]
fn rows_without_cells_render_as_empty_text() {
    let rows: Vec<Vec<String>> = vec![Vec::new(), Vec::new()];
    assert_eq!(render(UTF8_FULL, &rows), Ok(String::new()));
}

#[test]
fn single_row_has_no_separator_line() {
    let text = render(UTF8_FULL, &table(&[&["only", "row"]])).unwrap();
    assert_eq!(text, "┌──────┬─────┐\n│ only │ row │\n└──────┴─────┘");
}

#[test]
fn two_rows_have_the_separator_line_between_them() {
    let text = render(UTF8_FULL, &table(&[&["h"], &["d"]])).unwrap();
    assert_eq!(text, "┌───┐\n│ h │\n╞═══╡\n│ d │\n└───┘");
}

#[test]
fn empty_column_is_one_wide() {
    let text = render(UTF8_FULL, &table(&[&[""]])).unwrap();
    assert_eq!(text, "┌───┐\n│   │\n└───┘");
    let text = render(UTF8_FULL, &table(&[&["", "ab"], &["", ""]])).unwrap();
    assert_eq!(text, "┌───┬────┐\n│   │ ab │\n╞═══╪════╡\n│   │    │\n└───┴────┘");
}

#[test]
fn ragged_rows_are_filled_with_empty_cells() {
    let text = render(UTF8_FULL, &table(&[&["a", "b", "c"], &["x"]])).unwrap();
    let lines: Vec<&str> = text.split('\n').collect();
    assert_eq!(lines[0], "┌───┬───┬───┐");
    assert_eq!(lines[1], "│ a │ b │ c │");
    assert_eq!(lines[3], "│ x │   │   │");
    let filled = render(UTF8_FULL, &table(&[&["a", "b", "c"], &["x", "", ""]])).unwrap();
    assert_eq!(text, filled);
}

#[test]
fn longest_row_need_not_come_first() {
    let text = render(ASCII_FULL, &table(&[&["x"], &["a", "b", "c"], &[]])).unwrap();
    let expected = "\
+---+---+---+
| x |   |   |
+===+===+===+
| a | b | c |
|   |   |   |
+---+---+---+";
    assert_eq!(text, expected);
}

#[test]
fn cells_are_padded_to_the_widest_of_their_column() {
    let text = render(ASCII_FULL, &table(&[&["ab"], &["abcd"], &["a"]])).unwrap();
    let lines: Vec<&str> = text.split('\n').collect();
    assert_eq!(lines[0], "+------+");
    assert_eq!(lines[1], "| ab   |");
    assert_eq!(lines[3], "| abcd |");
    assert_eq!(lines[4], "| a    |");
}

#[test]
fn wide_characters_take_two_columns() {
    let wide = render(ASCII_FULL, &table(&[&["日本"], &["ab"]])).unwrap();
    let narrow = render(ASCII_FULL, &table(&[&["abcd"], &["ab"]])).unwrap();
    let wide_lines: Vec<&str> = wide.split('\n').collect();
    let narrow_lines: Vec<&str> = narrow.split('\n').collect();
    assert_eq!(wide_lines[0], "+------+");
    assert_eq!(wide_lines[0], narrow_lines[0]);
    assert_eq!(wide_lines[1], "| 日本 |");
    assert_eq!(wide_lines[3], "| ab   |");
    assert_eq!(wide_lines[3], narrow_lines[3]);
}

#[test]
fn combining_characters_take_no_column() {
    let text = render(ASCII_FULL, &table(&[&["e\u{301}"], &["e"]])).unwrap();
    assert_eq!(text, "+---+\n| e\u{301} |\n+===+\n| e |\n+---+");
}

#[test]
fn unknown_preset_is_an_error() {
    assert_eq!(render("NO_SUCH_PRESET", &people()), Err(RenderError::InvalidPreset));
    assert_eq!(render("", &people()), Err(RenderError::InvalidPreset));
    assert_eq!(render("utf8_full", &people()), Err(RenderError::InvalidPreset));
    assert_eq!(render("UTF8_FUL", &people()), Err(RenderError::InvalidPreset));
    assert_eq!(render("UTF8_FULL ", &people()), Err(RenderError::InvalidPreset));
    let no_rows: Vec<Vec<String>> = Vec::new();
    assert_eq!(render("NO_SUCH_PRESET", &no_rows), Err(RenderError::InvalidPreset));
}

#[test]
fn line_feed_in_a_cell_is_an_error() {
    let rows = table(&[&["ok", "fine"], &["two\nlines", "x"]]);
    assert_eq!(render(UTF8_FULL, &rows), Err(RenderError::UnsupportedCellContent));
    assert_eq!(render_table(rows), Err(RenderError::UnsupportedCellContent));
    let rows = table(&[&["\n"]]);
    assert_eq!(render(ASCII_FULL, &rows), Err(RenderError::UnsupportedCellContent));
}

#[test]
fn unknown_preset_is_reported_before_cell_content() {
    let rows = table(&[&["two\nlines"]]);
    assert_eq!(render("NO_SUCH_PRESET", &rows), Err(RenderError::InvalidPreset));
}

#[test]
fn render_with_takes_any_glyphs() {
    let glyphs = Glyphs {
        top_left: '1',
        top_mid: '2',
        top_right: '3',
        horizontal: '4',
        vertical: '5',
        header_left: '6',
        header_mid: '7',
        header_right: '8',
        header_horizontal: '9',
        bottom_left: 'a',
        bottom_mid: 'b',
        bottom_right: 'c',
    };
    let text = render_with(&glyphs, &table(&[&["x", "yy"], &["z"]])).unwrap();
    assert_eq!(text, "1444244443\n5 x 5 yy 5\n6999799998\n5 z 5    5\na444b4444c");
    let rows = table(&[&["a\nb"]]);
    assert_eq!(render_with(&glyphs, &rows), Err(RenderError::UnsupportedCellContent));
}

#[test]
fn render_agrees_with_render_with() {
    let glyphs = lookup_preset(UTF8_FULL).unwrap();
    assert_eq!(render(UTF8_FULL, &people()), render_with(&glyphs, &people()));
    let glyphs = lookup_preset(ASCII_FULL).unwrap();
    assert_eq!(render(ASCII_FULL, &people()), render_with(&glyphs, &people()));
}

#[test]
fn errors_have_messages() {
    assert_eq!(RenderError::InvalidPreset.message(), "the preset is not in the registry");
    assert_eq!(RenderError::UnsupportedCellContent.message(), "a cell holds a line feed");
    let error = render("NO_SUCH_PRESET", &people()).unwrap_err();
    assert_eq!(error.message(), "the preset is not in the registry");
}
