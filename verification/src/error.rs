//! The ways in which rendering fails.

use vstd::prelude::*;

verus! {

/// Why a table was not rendered.
#[derive(Clone, Copy, Debug, PartialEq, Eq, Structural)]
pub enum RenderError {
    /// The preset identifier is not in the registry.
    InvalidPreset,
    /// A cell holds a line feed. A cell is laid out on one line, so its text
    /// must not break the line.
    UnsupportedCellContent,
}

impl RenderError {
    /// What the message of an error says.
    pub open spec fn message_text(self) -> Seq<char> {
        match self {
            RenderError::InvalidPreset => "the preset is not in the registry"@,
            RenderError::UnsupportedCellContent => "a cell holds a line feed"@,
        }
    }

    /// A message that says what went wrong.
    pub fn message(&self) -> (text: String)
        ensures
            text@ == self.message_text(),
    {
        match self {
            RenderError::InvalidPreset => "the preset is not in the registry".to_owned(),
            RenderError::UnsupportedCellContent => "a cell holds a line feed".to_owned(),
        }
    }
}

} // verus!
