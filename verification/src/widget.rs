//! What the terminal display of a rendered frame decides exactly: its modes,
//! and the character that stands for a brightness level.
use vstd::prelude::*;

verus! {

/// How a frame is shown in the terminal.
#[derive(Clone, Copy, Debug, PartialEq, Eq)]
pub enum RenderMode {
    /// One character of a brightness ramp per pixel.
    Ascii,
    /// One background colour per pixel.
    BackgroundColors,
}

/// The brightness ramp of the `Ascii` mode, from darkest to brightest.
pub open spec fn ascii_ramp() -> Seq<char> {
    seq![' ', '.', ':', '-', '=', '+', '*', '#', '%', '@']
}

/// The number of the brightest level of the ramp.
pub const BRIGHTEST_LEVEL: usize = 9;

/// The character for brightness level `level`: level 0 is the darkest and
/// `BRIGHTEST_LEVEL` the brightest; higher levels count as the brightest.
pub fn ramp_char(level: usize) -> (c: char)
    ensures
        c == ascii_ramp()[if level > BRIGHTEST_LEVEL {
            BRIGHTEST_LEVEL as int
        } else {
            level as int
        }],
{
    let chars: [char; 10] = [' ', '.', ':', '-', '=', '+', '*', '#', '%', '@'];
    assert(chars@ =~= ascii_ramp());
    let idx = if level > BRIGHTEST_LEVEL {
        BRIGHTEST_LEVEL
    } else {
        level
    };
    chars[idx]
}

} // verus!
