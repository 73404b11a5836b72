//! Coloured terminal text via ANSI escape sequences.
//!
//! [`Rgb`] is a 24-bit colour; [`RGB`] pairs one or two colours with a piece
//! of text. [`RGB::render`] produces the exact escape-coded string, verified
//! character by character, for terminals that understand 24-bit colour codes.

use vstd::prelude::*;
use vstd::string::StringExecFns;

verus! {

/// The character for a single decimal digit.
pub open spec fn digit_char(d: nat) -> char {
    if d == 0 {
        '0'
    } else if d == 1 {
        '1'
    } else if d == 2 {
        '2'
    } else if d == 3 {
        '3'
    } else if d == 4 {
        '4'
    } else if d == 5 {
        '5'
    } else if d == 6 {
        '6'
    } else if d == 7 {
        '7'
    } else if d == 8 {
        '8'
    } else {
        '9'
    }
}

/// The decimal notation of `n`, most significant digit first, no leading
/// zeroes (a single `'0'` for zero itself).
pub open spec fn dec_str(n: nat) -> Seq<char>
    decreases n,
{
    if n < 10 {
        seq![digit_char(n)]
    } else {
        dec_str(n / 10).push(digit_char(n % 10))
    }
}

/// Colour represented as RGB.
#[derive(Debug, Clone, PartialEq, Eq, Structural)]
pub struct Rgb(pub u8, pub u8, pub u8);

/// A coloured piece of text (foreground, background, or both) for terminals
/// that support ANSI escape sequences with 24-bit colour codes.
#[derive(Debug, Clone)]
pub enum RGB<'a> {
    /// Coloured foreground
    Fg(Rgb, &'a str),
    /// Coloured background
    Bg(Rgb, &'a str),
    /// Coloured foreground and background
    FgBg(Rgb, Rgb, &'a str),
}

/// Append the single decimal digit `d` to `s`.
fn push_digit(s: &mut String, d: u8)
    requires
        d < 10,
    ensures
        final(s)@ == old(s)@ + seq![digit_char(d as nat)],
{
    let ds: &str = match d {
        0 => "0",
        1 => "1",
        2 => "2",
        3 => "3",
        4 => "4",
        5 => "5",
        6 => "6",
        7 => "7",
        8 => "8",
        _ => "9",
    };
    proof {
        reveal_strlit("0");
        reveal_strlit("1");
        reveal_strlit("2");
        reveal_strlit("3");
        reveal_strlit("4");
        reveal_strlit("5");
        reveal_strlit("6");
        reveal_strlit("7");
        reveal_strlit("8");
        reveal_strlit("9");
        assert(ds@ =~= seq![digit_char(d as nat)]);
    }
    s.append(ds);
}

/// Append the decimal notation of `v` to `s`.
fn append_dec(s: &mut String, v: u8)
    ensures
        final(s)@ == old(s)@ + dec_str(v as nat),
{
    let ghost s0 = s@;
    let q = v / 10;
    if q >= 10 {
        push_digit(s, q / 10);
        push_digit(s, q % 10);
        push_digit(s, v % 10);
        proof {
            assert(dec_str((q / 10) as nat) == seq![digit_char((q / 10) as nat)]);
            assert(dec_str(q as nat) == dec_str((q / 10) as nat).push(digit_char((q % 10) as nat)));
            assert(dec_str(v as nat) == dec_str(q as nat).push(digit_char((v % 10) as nat)));
            assert(s@ =~= s0 + dec_str(v as nat));
        }
    } else if q >= 1 {
        push_digit(s, q);
        push_digit(s, v % 10);
        proof {
            assert(dec_str(q as nat) == seq![digit_char(q as nat)]);
            assert(dec_str(v as nat) == dec_str(q as nat).push(digit_char((v % 10) as nat)));
            assert(s@ =~= s0 + dec_str(v as nat));
        }
    } else {
        push_digit(s, v % 10);
        proof {
            assert(dec_str(v as nat) == seq![digit_char((v % 10) as nat)]);
            assert(s@ =~= s0 + dec_str(v as nat));
        }
    }
}

/// The colour part of an escape sequence: the decimal components of `c`
/// separated by `';'`.
pub open spec fn colour_triple(c: Rgb) -> Seq<char> {
    dec_str(c.0 as nat) + ";"@ + dec_str(c.1 as nat) + ";"@ + dec_str(c.2 as nat)
}

/// Escape-coded text with foreground colour `c`: select the colour, emit the
/// text, restore the default foreground.
pub open spec fn fg_escape(c: Rgb, txt: Seq<char>) -> Seq<char> {
    "\x1B[38;2;"@ + colour_triple(c) + "m"@ + txt + "\x1B[39m"@
}

/// Escape-coded text with background colour `c`.
pub open spec fn bg_escape(c: Rgb, txt: Seq<char>) -> Seq<char> {
    "\x1B[48;2;"@ + colour_triple(c) + "m"@ + txt + "\x1B[49m"@
}

/// Escape-coded text with foreground `fg` and background `bg`.
pub open spec fn fgbg_escape(fg_col: Rgb, bg_col: Rgb, txt: Seq<char>) -> Seq<char> {
    "\x1B[38;2;"@ + colour_triple(fg_col) + "m"@ + "\x1B[48;2;"@ + colour_triple(bg_col) + "m"@
        + txt + "\x1B[49m"@ + "\x1B[39m"@
}

/// Append a 24-bit colour-select sequence: the given prefix (which picks
/// foreground or background), the components of `c`, and the final `'m'`.
fn append_colour_select(s: &mut String, prefix: &str, c: &Rgb)
    ensures
        final(s)@ == old(s)@ + prefix@ + colour_triple(*c) + "m"@,
{
    let ghost s0 = s@;
    s.append(prefix);
    append_dec(s, c.0);
    s.append(";");
    append_dec(s, c.1);
    s.append(";");
    append_dec(s, c.2);
    s.append("m");
    proof {
        assert(s@ =~= s0 + prefix@ + colour_triple(*c) + "m"@);
    }
}

impl Rgb {
    /// Set the foreground colour of the given text to this colour.
    pub fn fg<'a>(&self, txt: &'a str) -> (r: RGB<'a>)
        ensures
            r == RGB::Fg(*self, txt),
    {
        RGB::Fg(Rgb(self.0, self.1, self.2), txt)
    }

    /// Set the background colour of the given text to this colour.
    pub fn bg<'a>(&self, txt: &'a str) -> (r: RGB<'a>)
        ensures
            r == RGB::Bg(*self, txt),
    {
        RGB::Bg(Rgb(self.0, self.1, self.2), txt)
    }

    /// Set both the foreground and the background colour of the given text.
    pub fn fgbg<'a>(&self, bg_col: &Rgb, txt: &'a str) -> (r: RGB<'a>)
        ensures
            r == RGB::FgBg(*self, *bg_col, txt),
    {
        RGB::FgBg(Rgb(self.0, self.1, self.2), Rgb(bg_col.0, bg_col.1, bg_col.2), txt)
    }
}

impl<'a> RGB<'a> {
    /// The exact escape-coded character sequence this value prints as.
    pub open spec fn ansi(self) -> Seq<char> {
        match self {
            RGB::Fg(c, txt) => fg_escape(c, txt@),
            RGB::Bg(c, txt) => bg_escape(c, txt@),
            RGB::FgBg(fg_col, bg_col, txt) => fgbg_escape(fg_col, bg_col, txt@),
        }
    }

    /// Produce the escape-coded string for a terminal that supports ANSI
    /// escape sequences with 24-bit colour codes.
    pub fn render(&self) -> (r: String)
        ensures
            r@ == self.ansi(),
    {
        let mut s = String::new();
        match self {
            RGB::Fg(c, txt) => {
                append_colour_select(&mut s, "\x1B[38;2;", c);
                s.append(txt);
                s.append("\x1B[39m");
                proof {
                    assert(s@ =~= self.ansi());
                }
            },
            RGB::Bg(c, txt) => {
                append_colour_select(&mut s, "\x1B[48;2;", c);
                s.append(txt);
                s.append("\x1B[49m");
                proof {
                    assert(s@ =~= self.ansi());
                }
            },
            RGB::FgBg(fg_col, bg_col, txt) => {
                append_colour_select(&mut s, "\x1B[38;2;", fg_col);
                append_colour_select(&mut s, "\x1B[48;2;", bg_col);
                s.append(txt);
                s.append("\x1B[49m");
                s.append("\x1B[39m");
                proof {
                    assert(s@ =~= self.ansi());
                }
            },
        }
        s
    }
}

} // verus!
