use crossterm::style::ContentStyle;
use vstd::prelude::*;

verus! {

/// Lets `ContentStyle` appear in signatures and fields; the library only carries it through.
#[verifier::external_type_specification]
#[verifier::external_body]
pub struct ExContentStyle(ContentStyle);

/// The value held by one position of a canvas.
#[derive(Clone, Copy, Debug, PartialEq)]
pub enum Cell {
    /// A displayable character with its style.
    Content { chr: char, style: ContentStyle },
    /// The continuation of a wide character that starts further left on the same row.
    PlaceHolder,
}

impl Cell {
    /// A glyph cell holding `chr` painted with `style`.
    pub fn styled(chr: char, style: ContentStyle) -> (r: Cell)
        ensures
            r == (Cell::Content { chr, style }),
    {
        Cell::Content { chr, style }
    }
}

} // verus!
