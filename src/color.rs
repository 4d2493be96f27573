//! Terminal color numbers, as terminals number them.
use vstd::prelude::*;

verus! {

/// A terminal color.
pub type Color = u32;

pub const BLACK: Color = 0;
pub const RED: Color = 1;
pub const GREEN: Color = 2;
pub const YELLOW: Color = 3;
pub const BLUE: Color = 4;
pub const MAGENTA: Color = 5;
pub const CYAN: Color = 6;
pub const WHITE: Color = 7;
pub const BRIGHT_BLACK: Color = 8;
pub const BRIGHT_RED: Color = 9;
pub const BRIGHT_GREEN: Color = 10;
pub const BRIGHT_YELLOW: Color = 11;
pub const BRIGHT_BLUE: Color = 12;
pub const BRIGHT_MAGENTA: Color = 13;
pub const BRIGHT_CYAN: Color = 14;
pub const BRIGHT_WHITE: Color = 15;

/// The color that a style letter names: lower case for the normal colors,
/// upper case for the bright ones.
pub open spec fn color_of_letter(c: char) -> Option<Color> {
    match c {
        'd' => Some(BLACK),
        'D' => Some(BRIGHT_BLACK),
        'r' => Some(RED),
        'R' => Some(BRIGHT_RED),
        'g' => Some(GREEN),
        'G' => Some(BRIGHT_GREEN),
        'y' => Some(YELLOW),
        'Y' => Some(BRIGHT_YELLOW),
        'b' => Some(BLUE),
        'B' => Some(BRIGHT_BLUE),
        'm' => Some(MAGENTA),
        'M' => Some(BRIGHT_MAGENTA),
        'c' => Some(CYAN),
        'C' => Some(BRIGHT_CYAN),
        'w' => Some(WHITE),
        'W' => Some(BRIGHT_WHITE),
        _ => None,
    }
}

/// The color that the style letter `c` names, if any.
pub fn color_letter(c: char) -> (r: Option<Color>)
    ensures
        r == color_of_letter(c),
{
    match c {
        'd' => Some(BLACK),
        'D' => Some(BRIGHT_BLACK),
        'r' => Some(RED),
        'R' => Some(BRIGHT_RED),
        'g' => Some(GREEN),
        'G' => Some(BRIGHT_GREEN),
        'y' => Some(YELLOW),
        'Y' => Some(BRIGHT_YELLOW),
        'b' => Some(BLUE),
        'B' => Some(BRIGHT_BLUE),
        'm' => Some(MAGENTA),
        'M' => Some(BRIGHT_MAGENTA),
        'c' => Some(CYAN),
        'C' => Some(BRIGHT_CYAN),
        'w' => Some(WHITE),
        'W' => Some(BRIGHT_WHITE),
        _ => None,
    }
}

} // verus!
