//! Constructors of the built-in objects.
use vstd::prelude::*;
use crate::types::{empty_object, Colour, ObjectKind, Terminal, TerminalObject};
use crate::types::caption_chars;

verus! {

/// An object that fills the whole grid with spaces on `bg_colour` every frame and dies on the
/// named event `KILL_SCREEN_CLEANER`. It belongs in layer zero, below what it would wipe.
pub fn screen_cleaner(bg_colour: &Colour) -> (r: TerminalObject)
    ensures
        r.kind == ObjectKind::ScreenCleaner(*bg_colour),
{
    TerminalObject { kind: ObjectKind::ScreenCleaner(*bg_colour) }
}

/// A caption centred on the grid in the foreground and background colours of `data`, which
/// any key press or click dismisses.
pub fn colour_prompt(data: &(Colour, Colour, &str)) -> (r: TerminalObject)
    ensures
        r.kind matches ObjectKind::ColourPrompt(fg, bg, t) && fg == data.0 && bg == data.1 && t@
            == data.2@,
{
    let (fg_colour, bg_colour, text) = *data;
    TerminalObject { kind: ObjectKind::ColourPrompt(fg_colour, bg_colour, caption_chars(text)) }
}

/// Splitting a terminal at column `X_SPLIT` is not supported yet: the terminal is left as it
/// is and the object returned is empty.
pub fn vertical_split<const WIDTH: usize, const HEIGHT: usize, const X_SPLIT: usize>(
    terminal: &mut Terminal<WIDTH, HEIGHT>,
) -> (r: TerminalObject)
    requires
        X_SPLIT <= WIDTH,
    ensures
        r == empty_object(),
        *final(terminal) == *old(terminal),
{
    TerminalObject::empty()
}

} // verus!
