use pycomfy::content::{check_cells, contains_newline};
use pycomfy::frame::{push_border_line, push_content_line};
use pycomfy::layout::{count_columns, measure_column, measure_columns};
use pycomfy::preset::is_single_column;
use pycomfy::text::{push_repeated, same_text};
use pycomfy::width::{char_width, display_width, width_from_unicode};
use pycomfy::{lookup_preset, render, ASCII_FULL, UTF8_FULL};

fn cells(rows: &[&[&str]]) -> Vec<Vec<String>> {
    rows.iter()
        .map(|row| row.iter().map(|cell| cell.to_string()).collect())
        .collect()
}

#[test]
fn char_width_of_ascii() {
    assert_eq!(char_width(' '), 1);
    assert_eq!(char_width('a'), 1);
    assert_eq!(char_width('~'), 1);
}

#[test]
fn char_width_of_control_characters() {
    assert_eq!(char_width('\u{0}'), 0);
    assert_eq!(char_width('\u{7}'), 0);
    assert_eq!(char_width('\n'), 0);
    assert_eq!(char_width('\u{1f}'), 0);
    assert_eq!(char_width('\u{7f}'), 0);
    assert_eq!(char_width('\u{9f}'), 0);
}

#[test]
fn char_width_of_wide_and_combining_characters() {
    assert_eq!(char_width('日'), 2);
    assert_eq!(char_width('Ｈ'), 2);
    assert_eq!(char_width('\u{301}'), 0);
    assert_eq!(char_width('é'), 1);
    assert_eq!(char_width('│'), 1);
}

#[test]
fn display_width_is_the_sum_over_characters() {
    assert_eq!(display_width(""), 0);
    assert_eq!(display_width("abcd"), 4);
    assert_eq!(display_width("日本語"), 6);
    assert_eq!(display_width("a日b"), 4);
    assert_eq!(display_width("e\u{301}"), 1);
    assert_eq!(display_width("a\u{7}b"), 2);
    let text = "mixed 日本 e\u{301}";
    let sum: u128 = text.chars().map(|c| char_width(c) as u128).sum();
    assert_eq!(display_width(text), sum);
}

#[test]
fn column_count_is_the_longest_row() {
    assert_eq!(count_columns(&cells(&[])), 0);
    assert_eq!(count_columns(&cells(&[&[]])), 0);
    assert_eq!(count_columns(&cells(&[&["a", "b", "c"], &["x"]])), 3);
    assert_eq!(count_columns(&cells(&[&["x"], &["a", "b", "c"], &["y", "z"]])), 3);
}

#[test]
fn column_width_is_the_widest_cell() {
    let rows = cells(&[&["ab"], &["abcd"], &["a"]]);
    assert_eq!(measure_column(&rows, 0), 4);
    assert_eq!(measure_columns(&rows), vec![4]);
}

#[test]
fn column_widths_of_a_table() {
    let rows = cells(&[&["Name", "Age"], &["Alice", "30"], &["Bob", "25"]]);
    assert_eq!(measure_columns(&rows), vec![5, 3]);
}

#[test]
fn column_width_is_at_least_one() {
    let rows = cells(&[&["", "x"], &[""]]);
    assert_eq!(measure_columns(&rows), vec![1, 1]);
    assert_eq!(measure_column(&rows, 7), 1);
    assert_eq!(measure_column(&cells(&[]), 0), 1);
}

#[test]
fn column_width_counts_columns_not_characters() {
    let rows = cells(&[&["日本", "e\u{301}"], &["abc", ""]]);
    assert_eq!(measure_columns(&rows), vec![4, 1]);
}

#[test]
fn missing_cells_count_as_empty() {
    let rows = cells(&[&["a", "bbb", "cc"], &["dddd"]]);
    assert_eq!(measure_columns(&rows), vec![4, 3, 2]);
}

#[test]
fn border_line_over_widths() {
    let mut out = String::from(">");
    push_border_line(&mut out, '<', '-', '+', '>', &vec![1, 3]);
    assert_eq!(out, "><---+----->");
    let mut out = String::new();
    push_border_line(&mut out, '<', '-', '+', '>', &vec![0]);
    assert_eq!(out, "<-->");
    let mut out = String::new();
    push_border_line(&mut out, '<', '-', '+', '>', &Vec::new());
    assert_eq!(out, "<>");
}

#[test]
fn content_line_over_widths() {
    let row = vec!["ab".to_string(), "日".to_string()];
    let mut out = String::from("#");
    push_content_line(&mut out, '|', &vec![4, 2, 1], &row);
    assert_eq!(out, "#| ab   | 日 |   |");
}

#[test]
fn content_line_keeps_a_cell_wider_than_its_column() {
    let row = vec!["abcdef".to_string()];
    let mut out = String::new();
    push_content_line(&mut out, '|', &vec![2], &row);
    assert_eq!(out, "| abcdef |");
}

#[test]
fn content_line_leaves_out_cells_beyond_the_columns() {
    let row = vec!["a".to_string(), "b".to_string()];
    let mut out = String::new();
    push_content_line(&mut out, '|', &vec![1], &row);
    assert_eq!(out, "| a |");
}

#[test]
fn repeated_characters_are_appended() {
    let mut out = String::from("ab");
    push_repeated(&mut out, '─', 3);
    assert_eq!(out, "ab───");
    push_repeated(&mut out, 'x', 0);
    assert_eq!(out, "ab───");
}

#[test]
fn same_text_compares_characters() {
    assert!(same_text("", ""));
    assert!(same_text("UTF8_FULL", "UTF8_FULL"));
    assert!(same_text("日本", "日本"));
    assert!(!same_text("UTF8_FULL", "UTF8_FUL"));
    assert!(!same_text("UTF8_FULL", "UTF8_FULK"));
    assert!(!same_text("abc", "abd"));
    assert!(!same_text("", "a"));
    assert!(!same_text("é", "e\u{301}"));
}

#[test]
fn registry_holds_the_presets() {
    let utf8 = lookup_preset(UTF8_FULL).unwrap();
    assert_eq!(utf8.top_left, '┌');
    assert_eq!(utf8.top_mid, '┬');
    assert_eq!(utf8.top_right, '┐');
    assert_eq!(utf8.horizontal, '─');
    assert_eq!(utf8.vertical, '│');
    assert_eq!(utf8.header_left, '╞');
    assert_eq!(utf8.header_mid, '╪');
    assert_eq!(utf8.header_right, '╡');
    assert_eq!(utf8.header_horizontal, '═');
    assert_eq!(utf8.bottom_left, '└');
    assert_eq!(utf8.bottom_mid, '┴');
    assert_eq!(utf8.bottom_right, '┘');
    let ascii = lookup_preset(ASCII_FULL).unwrap();
    assert_eq!(ascii.top_left, '+');
    assert_eq!(ascii.horizontal, '-');
    assert_eq!(ascii.vertical, '|');
    assert_eq!(ascii.header_horizontal, '=');
    assert_eq!(lookup_preset("NOTHING"), None);
    assert_eq!(UTF8_FULL, "UTF8_FULL");
    assert_eq!(ASCII_FULL, "ASCII_FULL");
}

#[test]
fn preset_glyphs_take_one_column_each() {
    assert!(is_single_column(&lookup_preset(UTF8_FULL).unwrap()));
    assert!(is_single_column(&lookup_preset(ASCII_FULL).unwrap()));
    let mut wide = lookup_preset(ASCII_FULL).unwrap();
    wide.vertical = '日';
    assert!(!is_single_column(&wide));
}

#[test]
fn line_feeds_are_found() {
    assert!(!contains_newline(""));
    assert!(!contains_newline("no break here\r\t"));
    assert!(contains_newline("\n"));
    assert!(contains_newline("ab\ncd"));
    assert!(contains_newline("日本\n"));
    assert!(check_cells(&cells(&[])));
    assert!(check_cells(&cells(&[&["a", "b"], &[], &["c"]])));
    assert!(!check_cells(&cells(&[&["a", "b"], &[], &["c\n"]])));
    assert!(!check_cells(&cells(&[&["\na", "b"]])));
}

#[test]
fn all_lines_of_a_table_are_equally_wide() {
    let rows = cells(&[&["Name", "城市", "n"], &["Zoë", "東京"], &["e\u{301}", "", "12345"]]);
    let text = render(UTF8_FULL, &rows).unwrap();
    let widths: Vec<u128> = text.split('\n').map(display_width).collect();
    assert_eq!(widths.len(), 6);
    for width in &widths {
        assert_eq!(*width, 4 + 4 + 5 + 3 * 2 + 4);
    }
}

#[test]
fn separators_stand_at_the_same_columns() {
    let rows = cells(&[&["Name", "城市", "n"], &["Zoë", "東京"], &["e\u{301}", "", "12345"]]);
    let text = render(UTF8_FULL, &rows).unwrap();
    let expected: Vec<u128> = vec![0, 7, 14, 22];
    for line in text.split('\n').filter(|line| line.starts_with('│')) {
        let mut columns: Vec<u128> = Vec::new();
        for (at, c) in line.char_indices() {
            if c == '│' {
                columns.push(display_width(&line[..at]));
            }
        }
        assert_eq!(columns, expected);
    }
}

#[test]
fn separators_stand_at_the_same_characters_in_plain_text() {
    let rows = cells(&[&["Name", "Age"], &["Alice", "30"], &["Bob"]]);
    let text = render(ASCII_FULL, &rows).unwrap();
    for line in text.split('\n').filter(|line| line.starts_with('|')) {
        let places: Vec<usize> =
            line.chars().enumerate().filter(|(_, c)| *c == '|').map(|(at, _)| at).collect();
        assert_eq!(places, vec![0, 8, 14]);
    }
}

#[test]
fn wide_characters_shift_characters_but_not_columns() {
    let text = render(UTF8_FULL, &cells(&[&["日"], &["ab"]])).unwrap();
    let lines: Vec<&str> = text.split('\n').collect();
    assert_eq!(lines[1], "│ 日 │");
    assert_eq!(lines[3], "│ ab │");
    assert_eq!(lines[1].chars().count(), 5);
    assert_eq!(lines[3].chars().count(), 6);
    assert_eq!(display_width(lines[1]), 6);
    assert_eq!(display_width(lines[3]), 6);
}

#[test]
fn tables_with_cells_of_equal_widths_have_equal_borders() {
    let wide = render(UTF8_FULL, &cells(&[&["日本", "x"], &["東"]])).unwrap();
    let plain = render(UTF8_FULL, &cells(&[&["abcd", "y"], &["ef"]])).unwrap();
    let wide: Vec<&str> = wide.split('\n').collect();
    let plain: Vec<&str> = plain.split('\n').collect();
    assert_eq!(wide[0], plain[0]);
    assert_eq!(wide[2], plain[2]);
    assert_eq!(wide[4], plain[4]);
    assert_eq!(measure_columns(&cells(&[&["日本", "x"], &["東"]])), vec![4, 1]);
}

#[test]
fn width_from_what_the_unicode_tables_say() {
    assert_eq!(width_from_unicode('日', Some(2)), 2);
    assert_eq!(width_from_unicode('\u{301}', Some(0)), 0);
    assert_eq!(width_from_unicode('\u{7}', None), 0);
    assert_eq!(width_from_unicode('é', Some(1)), 1);
    assert_eq!(width_from_unicode('a', Some(1)), 1);
    assert_eq!(width_from_unicode('a', Some(5)), 1);
    assert_eq!(width_from_unicode(' ', None), 1);
    assert_eq!(width_from_unicode('\u{17d8}', Some(3)), 3);
}
