use crossterm::style::ContentStyle;
use unicode_width::{UnicodeWidthChar, UnicodeWidthStr};
use vstd::prelude::*;

verus! {

/// What `UnicodeWidthChar::width` returns for a character.
pub uninterp spec fn char_width_of(c: char) -> Option<usize>;

/// What `UnicodeWidthStr::width` returns for a string.
pub uninterp spec fn str_width_of(s: Seq<char>) -> usize;

/// Relies on `UnicodeWidthChar::width`: the columns a character takes, `None` for a control
/// character; the result depends on the character alone.
#[verifier::external_body]
pub(crate) fn char_width(c: char) -> (r: Option<usize>)
    ensures
        r == char_width_of(c),
{
    UnicodeWidthChar::width(c)
}

/// Relies on `UnicodeWidthStr::width`: the columns a string takes; the result depends on the
/// characters alone.
#[verifier::external_body]
pub(crate) fn str_width(s: &str) -> (r: usize)
    ensures
        r == str_width_of(s@),
{
    UnicodeWidthStr::width(s)
}

/// What `ContentStyle::default` returns: the style with no colours and no attributes.
pub uninterp spec fn neutral_style_of(unit: ()) -> ContentStyle;

/// Relies on `ContentStyle::default`: the neutral style, the same value on every call.
#[verifier::external_body]
pub(crate) fn neutral_style() -> (r: ContentStyle)
    ensures
        r == neutral_style_of(()),
{
    ContentStyle::default()
}

} // verus!
