//! Terminal styling decisions: which bold/color state each kind of message
//! asks for. Applying a style to a real terminal stream lives with the
//! caller; here a style is a plain value with an exact meaning.

use vstd::prelude::*;

verus! {

/// A foreground color a message can ask for.
#[derive(Debug, Clone, Copy, PartialEq, Eq, Structural)]
pub enum Color {
    Black,
    Blue,
    Green,
    Red,
    Cyan,
    Magenta,
    Yellow,
    White,
}

/// A terminal style: bold or not, and an optional foreground color.
#[derive(Debug, Clone, Copy, PartialEq, Eq, Structural)]
pub struct Style {
    pub bold: bool,
    pub fg: Option<Color>,
}

/// The style for bold text in the default color.
pub fn bold() -> (r: Style)
    ensures
        r == (Style { bold: true, fg: None::<Color> }),
{
    Style { bold: true, fg: None }
}

/// The style for plain text in the given color.
pub fn color(c: Color) -> (r: Style)
    ensures
        r == (Style { bold: false, fg: Some(c) }),
{
    Style { bold: false, fg: Some(c) }
}

/// The style for bold text in the given color.
pub fn bold_color(c: Color) -> (r: Style)
    ensures
        r == (Style { bold: true, fg: Some(c) }),
{
    Style { bold: true, fg: Some(c) }
}

/// The neutral style everything returns to: not bold, no color.
pub fn reset() -> (r: Style)
    ensures
        r == (Style { bold: false, fg: None::<Color> }),
{
    Style { bold: false, fg: None }
}

} // verus!
