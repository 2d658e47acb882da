//! Terminal escape sequences for colours and cells.
use vstd::prelude::*;
use vstd::string::*;
use crate::types::{Colour, ColourChar};

verus! {

/// Relies on `String::push`: appends `c` to the end of `s`.
#[verifier::external_body]
fn push_char(s: &mut String, c: char)
    ensures
        final(s)@ == old(s)@.push(c),
{
    s.push(c)
}

/// The character of decimal digit `d`.
pub open spec fn digit_char(d: nat) -> char {
    seq!['0', '1', '2', '3', '4', '5', '6', '7', '8', '9'][d as int]
}

/// The decimal digits of `n`, without leading zeros.
pub open spec fn decimal(n: nat) -> Seq<char>
    decreases n,
{
    if n < 10 {
        seq![digit_char(n)]
    } else {
        decimal(n / 10).push(digit_char(n % 10))
    }
}

/// The character of decimal digit `d`.
fn digit(d: u8) -> (c: char)
    requires
        d < 10,
    ensures
        c == digit_char(d as nat),
{
    if d == 0 {
        '0'
    } else if d == 1 {
        '1'
    } else if d == 2 {
        '2'
    } else if d == 3 {
        '3'
    } else if d == 4 {
        '4'
    } else if d == 5 {
        '5'
    } else if d == 6 {
        '6'
    } else if d == 7 {
        '7'
    } else if d == 8 {
        '8'
    } else {
        '9'
    }
}

/// Appends the decimal digits of `n` to `s`.
fn push_decimal(s: &mut String, n: u8)
    ensures
        final(s)@ == old(s)@ + decimal(n as nat),
{
    proof {
        reveal_with_fuel(decimal, 3);
    }
    if n >= 100 {
        push_char(s, digit(n / 100));
    }
    if n >= 10 {
        push_char(s, digit((n / 10) % 10));
    }
    push_char(s, digit(n % 10));
    proof {
        if n >= 100 {
            assert(decimal((n / 10) as nat) =~= seq![digit_char((n / 100) as nat), digit_char(((n / 10) % 10) as nat)]);
        }
    }
    assert(s@ =~= old(s)@ + decimal(n as nat));
}

/// The escape sequence that selects `c`, as foreground or, with `background`, as background.
pub open spec fn colour_escape(c: Colour, background: bool) -> Seq<char> {
    let lead = if background { "\x1b[48;"@ } else { "\x1b[38;"@ };
    match c {
        Colour::U8(code) => lead + "5;"@ + decimal(code as nat) + "m"@,
        Colour::Rgb(r, g, b) => lead + "2;"@ + decimal(r as nat) + ";"@ + decimal(g as nat) + ";"@
            + decimal(b as nat) + "m"@,
        Colour::Default => "\x1b[49m"@,
    }
}

/// The text that shows cell `c` on a terminal: its colours, its glyph, then a reset of the
/// background.
pub open spec fn cell_escape(c: ColourChar) -> Seq<char> {
    match c {
        ColourChar::Colour(fg, bg, ch) => colour_escape(bg, true) + colour_escape(fg, false)
            + seq![ch] + "\x1b[49m"@,
        ColourChar::Monochrome(ch) => seq![ch] + "\x1b[49m"@,
        ColourChar::Empty => " "@,
    }
}

/// Appends the escape sequence of `c` to `s`.
fn push_colour(s: &mut String, c: Colour, background: bool)
    ensures
        final(s)@ == old(s)@ + colour_escape(c, background),
{
    let ghost start = s@;
    match c {
        Colour::U8(code) => {
            if background {
                s.append("\x1b[48;");
            } else {
                s.append("\x1b[38;");
            }
            s.append("5;");
            push_decimal(s, code);
            s.append("m");
        },
        Colour::Rgb(r, g, b) => {
            if background {
                s.append("\x1b[48;");
            } else {
                s.append("\x1b[38;");
            }
            s.append("2;");
            push_decimal(s, r);
            s.append(";");
            push_decimal(s, g);
            s.append(";");
            push_decimal(s, b);
            s.append("m");
        },
        Colour::Default => {
            s.append("\x1b[49m");
        },
    }
    assert(s@ =~= start + colour_escape(c, background));
}

impl Colour {
    /// The escape sequence that selects this colour for the foreground.
    pub fn foreground_escape(&self) -> (r: String)
        ensures
            r@ == colour_escape(*self, false),
    {
        let mut s = String::new();
        push_colour(&mut s, *self, false);
        assert(s@ =~= colour_escape(*self, false));
        s
    }

    /// The escape sequence that selects this colour for the background.
    pub fn background_escape(&self) -> (r: String)
        ensures
            r@ == colour_escape(*self, true),
    {
        let mut s = String::new();
        push_colour(&mut s, *self, true);
        assert(s@ =~= colour_escape(*self, true));
        s
    }
}

impl ColourChar {
    /// The text that shows this cell on a terminal.
    pub fn to_ansi_string(&self) -> (r: String)
        ensures
            r@ == cell_escape(*self),
    {
        let mut s = String::new();
        match *self {
            ColourChar::Colour(fg, bg, ch) => {
                push_colour(&mut s, bg, true);
                push_colour(&mut s, fg, false);
                push_char(&mut s, ch);
                s.append("\x1b[49m");
            },
            ColourChar::Monochrome(ch) => {
                push_char(&mut s, ch);
                s.append("\x1b[49m");
            },
            ColourChar::Empty => {
                s.append(" ");
            },
        }
        assert(s@ =~= cell_escape(*self));
        s
    }
}

} // verus!
