//! Texts as a message quotes them, and the lower case of any text.
use vstd::prelude::*;

use crate::text::ascii_lowered;

verus! {

/// What the `Debug` form of a string slice is: the text in double quotes, with
/// escapes.
pub uninterp spec fn debug_text(text: Seq<char>) -> Seq<char>;

/// Writes a text with the `Debug` impl of `str`. The result depends on the text
/// alone, and bears a name; which characters are escaped is not said here.
#[verifier::external_body]
pub(crate) fn quoted_text(text: &str) -> (quoted: String)
    ensures
        quoted@ == debug_text(text@),
{
    format!("{text:?}")
}

/// What the `Debug` form of a character is: the character in single quotes,
/// with escapes.
pub uninterp spec fn debug_char(character: char) -> Seq<char>;

/// Writes a character with the `Debug` impl of `char`. The result depends on
/// the character alone, and bears a name; which characters are escaped is not
/// said here.
#[verifier::external_body]
pub(crate) fn quoted_char(character: char) -> (quoted: String)
    ensures
        quoted@ == debug_char(character),
{
    format!("{character:?}")
}

/// What `str::to_lowercase` makes of a text.
pub uninterp spec fn lowercased(text: Seq<char>) -> Seq<char>;

/// The characters of a text are all ASCII.
pub open spec fn all_ascii(text: Seq<char>) -> bool {
    forall|i: int| 0 <= i < text.len() ==> (#[trigger] text[i] as u32) < 128
}

/// Turns a text into lower case with `str::to_lowercase`. The result depends on
/// the text alone, and bears a name. Of ASCII text it is said that the letters
/// A to Z become lower case and the rest stays; of other text nothing.
#[verifier::external_body]
pub(crate) fn to_lowercase(text: &str) -> (lower: String)
    ensures
        lower@ == lowercased(text@),
        all_ascii(text@) ==> lower@ == ascii_lowered(text@),
{
    text.to_lowercase()
}

} // verus!
