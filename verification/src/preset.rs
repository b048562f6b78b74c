//! The presets: named bundles of the glyphs that frame a table.

use crate::text::same_text;
use crate::width::{char_columns, char_width};
use vstd::prelude::*;

verus! {

/// The glyphs that frame a table.
#[derive(Clone, Copy, Debug, PartialEq, Eq, Structural)]
pub struct Glyphs {
    /// The corner that opens the top border.
    pub top_left: char,
    /// The junction of the top border with a column separator.
    pub top_mid: char,
    /// The corner that closes the top border.
    pub top_right: char,
    /// The line of the top and the bottom border.
    pub horizontal: char,
    /// The separator before, between and after the cells of a row.
    pub vertical: char,
    /// The glyph that opens the line under the header.
    pub header_left: char,
    /// The junction of the line under the header with a column separator.
    pub header_mid: char,
    /// The glyph that closes the line under the header.
    pub header_right: char,
    /// The line under the header.
    pub header_horizontal: char,
    /// The corner that opens the bottom border.
    pub bottom_left: char,
    /// The junction of the bottom border with a column separator.
    pub bottom_mid: char,
    /// The corner that closes the bottom border.
    pub bottom_right: char,
}

/// The identifier of the preset drawn with Unicode box-drawing characters.
pub const UTF8_FULL: &'static str = "UTF8_FULL";

/// The identifier of the preset drawn with ASCII characters only.
pub const ASCII_FULL: &'static str = "ASCII_FULL";

/// The glyphs of `UTF8_FULL`: light lines for the frame, a double line under
/// the header.
pub open spec fn utf8_full_glyphs() -> Glyphs {
    Glyphs {
        top_left: '\u{250c}',
        top_mid: '\u{252c}',
        top_right: '\u{2510}',
        horizontal: '\u{2500}',
        vertical: '\u{2502}',
        header_left: '\u{255e}',
        header_mid: '\u{256a}',
        header_right: '\u{2561}',
        header_horizontal: '\u{2550}',
        bottom_left: '\u{2514}',
        bottom_mid: '\u{2534}',
        bottom_right: '\u{2518}',
    }
}

/// The glyphs of `ASCII_FULL`.
pub open spec fn ascii_full_glyphs() -> Glyphs {
    Glyphs {
        top_left: '+',
        top_mid: '+',
        top_right: '+',
        horizontal: '-',
        vertical: '|',
        header_left: '+',
        header_mid: '+',
        header_right: '+',
        header_horizontal: '=',
        bottom_left: '+',
        bottom_mid: '+',
        bottom_right: '+',
    }
}

/// The registry: the glyphs of each preset, by identifier. An identifier
/// that is not listed has no glyphs.
pub open spec fn preset_glyphs(id: Seq<char>) -> Option<Glyphs> {
    if id == UTF8_FULL@ {
        Some(utf8_full_glyphs())
    } else if id == ASCII_FULL@ {
        Some(ascii_full_glyphs())
    } else {
        None
    }
}

/// The registry holds both presets, each under its identifier.
pub proof fn lemma_registry_entries()
    ensures
        preset_glyphs(UTF8_FULL@) == Some(utf8_full_glyphs()),
        preset_glyphs(ASCII_FULL@) == Some(ascii_full_glyphs()),
{
    reveal_strlit("UTF8_FULL");
    reveal_strlit("ASCII_FULL");
    assert(ASCII_FULL@.len() != UTF8_FULL@.len());
}

/// Looks a preset up in the registry.
pub fn lookup_preset(id: &str) -> (glyphs: Option<Glyphs>)
    ensures
        glyphs == preset_glyphs(id@),
{
    if same_text(id, UTF8_FULL) {
        Some(
            Glyphs {
                top_left: '\u{250c}',
                top_mid: '\u{252c}',
                top_right: '\u{2510}',
                horizontal: '\u{2500}',
                vertical: '\u{2502}',
                header_left: '\u{255e}',
                header_mid: '\u{256a}',
                header_right: '\u{2561}',
                header_horizontal: '\u{2550}',
                bottom_left: '\u{2514}',
                bottom_mid: '\u{2534}',
                bottom_right: '\u{2518}',
            },
        )
    } else if same_text(id, ASCII_FULL) {
        Some(
            Glyphs {
                top_left: '+',
                top_mid: '+',
                top_right: '+',
                horizontal: '-',
                vertical: '|',
                header_left: '+',
                header_mid: '+',
                header_right: '+',
                header_horizontal: '=',
                bottom_left: '+',
                bottom_mid: '+',
                bottom_right: '+',
            },
        )
    } else {
        None
    }
}

/// Whether every glyph takes up one column, as the layout of the border
/// lines supposes.
pub open spec fn single_column(glyphs: Glyphs) -> bool {
    &&& char_columns(glyphs.top_left) == 1
    &&& char_columns(glyphs.top_mid) == 1
    &&& char_columns(glyphs.top_right) == 1
    &&& char_columns(glyphs.horizontal) == 1
    &&& char_columns(glyphs.vertical) == 1
    &&& char_columns(glyphs.header_left) == 1
    &&& char_columns(glyphs.header_mid) == 1
    &&& char_columns(glyphs.header_right) == 1
    &&& char_columns(glyphs.header_horizontal) == 1
    &&& char_columns(glyphs.bottom_left) == 1
    &&& char_columns(glyphs.bottom_mid) == 1
    &&& char_columns(glyphs.bottom_right) == 1
}

/// Whether every glyph takes up one column.
pub fn is_single_column(glyphs: &Glyphs) -> (single: bool)
    ensures
        single == single_column(*glyphs),
{
    char_width(glyphs.top_left) == 1 && char_width(glyphs.top_mid) == 1 && char_width(
        glyphs.top_right,
    ) == 1 && char_width(glyphs.horizontal) == 1 && char_width(glyphs.vertical) == 1
        && char_width(glyphs.header_left) == 1 && char_width(glyphs.header_mid) == 1
        && char_width(glyphs.header_right) == 1 && char_width(glyphs.header_horizontal) == 1
        && char_width(glyphs.bottom_left) == 1 && char_width(glyphs.bottom_mid) == 1
        && char_width(glyphs.bottom_right) == 1
}

/// Every glyph of `ASCII_FULL` takes up one column.
pub proof fn lemma_ascii_full_single_column()
    ensures
        single_column(ascii_full_glyphs()),
{
}

} // verus!
