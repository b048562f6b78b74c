use comfy_table::presets;
use comfy_table::Table;
use pycomfy::width::{char_width, display_width};
use pycomfy::{render, UTF8_FULL};
use unicode_width::UnicodeWidthChar;

fn cells(rows: &[&[&str]]) -> Vec<Vec<String>> {
    rows.iter()
        .map(|row| row.iter().map(|cell| cell.to_string()).collect())
        .collect()
}

fn comfy_lines(rows: &Vec<Vec<String>>) -> Vec<String> {
    let mut table = Table::new();
    table.load_preset(presets::UTF8_FULL);
    for row in rows {
        table.add_row(row.clone());
    }
    table.to_string().split('\n').map(|line| line.to_string()).collect()
}

#[test]
fn char_width_agrees_with_the_unicode_tables() {
    for c in ['a', ' ', '~', '日', 'é', '\u{301}', '│', '═', '\u{7}', '\u{9f}', '😀', '\u{200d}'] {
        assert_eq!(char_width(c), UnicodeWidthChar::width(c).unwrap_or(0));
    }
    for code in 0x20u32..0x7f {
        let c = char::from_u32(code).unwrap();
        assert_eq!(UnicodeWidthChar::width(c), Some(1));
        assert_eq!(char_width(c), 1);
    }
}

#[test]
fn display_width_agrees_on_plain_and_wide_text() {
    for text in ["", "Alice", "日本語", "Zoë", "a b c"] {
        assert_eq!(display_width(text), unicode_width::UnicodeWidthStr::width(text) as u128);
    }
}

#[test]
fn borders_agree_with_comfy_table() {
    let tables = [
        cells(&[&["Name", "Age"], &["Alice", "30"], &["Bob", "25"]]),
        cells(&[&["日本語", "x"], &["ab", "東京都"]]),
        cells(&[&["a", "b", "c"], &["x"]]),
    ];
    for rows in &tables {
        let ours = render(UTF8_FULL, rows).unwrap();
        let ours: Vec<&str> = ours.split('\n').collect();
        let theirs = comfy_lines(rows);
        assert_eq!(ours[0], theirs[0]);
        assert_eq!(ours[ours.len() - 1], theirs[theirs.len() - 1]);
    }
}

#[test]
fn content_lines_agree_with_comfy_table_up_to_the_inner_separator() {
    let rows = cells(&[&["Name", "城市"], &["Alice", "東京"], &["Bob"]]);
    let ours = render(UTF8_FULL, &rows).unwrap();
    let ours: Vec<&str> = ours.split('\n').filter(|line| line.starts_with('│')).collect();
    let theirs: Vec<String> = comfy_lines(&rows)
        .iter()
        .filter(|line| line.starts_with('│'))
        .map(|line| line.replace('┆', "│"))
        .collect();
    assert_eq!(ours.len(), 3);
    assert_eq!(ours, theirs);
}
