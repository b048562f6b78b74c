//! Text tables with box-drawing borders.
//!
//! A table is a sequence of rows, and a row a sequence of cells. `render`
//! lays the cells out in columns, each as wide as its widest cell, and frames
//! them with the glyphs of a named preset.
//!
//! - `width`: how many terminal columns a character and a text take up.
//! - `text`: comparing texts and appending to a `String`.
//! - `layout`: how many columns a table has and how wide each one is.
//! - `preset`: the registry of glyph bundles.
//! - `content`: what a cell may hold.
//! - `error`: the ways in which rendering fails.
//! - `frame`: the lines of a table, and `render` itself.
//! - `lines`: the lines of a rendered text are the lines of the frame.
//! - `alignment`: why the columns of a rendered table line up.

#![allow(unused_imports)]

pub mod alignment;
pub mod content;
pub mod error;
pub mod frame;
pub mod layout;
pub mod lines;
pub mod preset;
pub mod text;
pub mod width;

pub use error::RenderError;
pub use frame::{render, render_table, render_with};
pub use preset::{lookup_preset, Glyphs, ASCII_FULL, UTF8_FULL};
