//! Display colours and the terminal escape sequences that select them.

use vstd::prelude::*;

verus! {

/// A foreground colour: an explicit 24-bit colour, or the terminal's own.
#[derive(Debug, Clone, Copy, PartialEq, Eq, PartialOrd, Structural)]
pub enum Color {
    Rgb { r: u8, g: u8, b: u8 },
    Default,
}

/// The character that stands for the digit `d`, for `d` below ten.
pub open spec fn digit_char(d: nat) -> char {
    if d == 0 {
        '0'
    } else if d == 1 {
        '1'
    } else if d == 2 {
        '2'
    } else if d == 3 {
        '3'
    } else if d == 4 {
        '4'
    } else if d == 5 {
        '5'
    } else if d == 6 {
        '6'
    } else if d == 7 {
        '7'
    } else if d == 8 {
        '8'
    } else {
        '9'
    }
}

/// `n` in decimal, most significant digit first, without leading zeros.
pub open spec fn decimal(n: nat) -> Seq<char>
    decreases n,
{
    if n < 10 {
        seq![digit_char(n)]
    } else {
        decimal(n / 10).push(digit_char(n % 10))
    }
}

/// Decimal notation has no leading zero: the first digit is `0` for zero
/// alone.
pub proof fn lemma_decimal_has_no_leading_zero(n: nat)
    ensures
        decimal(n).len() >= 1,
        decimal(n)[0] == '0' <==> n == 0,
    decreases n,
{
    if n >= 10 {
        lemma_decimal_has_no_leading_zero(n / 10);
    }
}

/// The decimal notation of a number below a thousand, digit by digit.
pub proof fn lemma_decimal_below_thousand(n: nat)
    requires
        n < 1000,
    ensures
        n < 10 ==> decimal(n) == seq![digit_char(n)],
        10 <= n < 100 ==> decimal(n) == seq![digit_char(n / 10), digit_char(n % 10)],
        100 <= n ==> decimal(n) == seq![
            digit_char(n / 100),
            digit_char((n / 10) % 10),
            digit_char(n % 10),
        ],
{
    reveal_with_fuel(decimal, 3);
    if n >= 100 {
        assert(decimal(n) =~= seq![
            digit_char(n / 100),
            digit_char((n / 10) % 10),
            digit_char(n % 10),
        ]);
    } else if n >= 10 {
        assert(decimal(n) =~= seq![digit_char(n / 10), digit_char(n % 10)]);
    }
}

/// The sequence that switches the terminal back to its default rendition.
pub open spec fn reset_sequence() -> Seq<char> {
    seq!['\x1b', '[', '0', 'm']
}

/// What introduces a 24-bit foreground colour, up to the red channel.
pub open spec fn rgb_prefix() -> Seq<char> {
    seq!['\x1b', '[', '3', '8', ';', '2', ';']
}

impl Color {
    /// The escape sequence that selects this colour.
    pub open spec fn escape_sequence(self) -> Seq<char> {
        match self {
            Color::Rgb { r, g, b } => rgb_prefix() + decimal(r as nat) + seq![';'] + decimal(
                g as nat,
            ) + seq![';'] + decimal(b as nat) + seq!['m'],
            Color::Default => reset_sequence(),
        }
    }

    /// The colour with the channels `color`: red, green, blue.
    pub fn rgb(color: [u8; 3]) -> (c: Self)
        ensures
            c == (Color::Rgb { r: color[0], g: color[1], b: color[2] }),
    {
        Color::Rgb { r: color[0], g: color[1], b: color[2] }
    }

    /// White: every channel full.
    pub fn white() -> (c: Self)
        ensures
            c == (Color::Rgb { r: 255, g: 255, b: 255 }),
    {
        Color::Rgb { r: 255, g: 255, b: 255 }
    }

    /// Black: every channel off.
    pub fn black() -> (c: Self)
        ensures
            c == (Color::Rgb { r: 0, g: 0, b: 0 }),
    {
        Color::Rgb { r: 0, g: 0, b: 0 }
    }

    /// Pure red.
    pub fn red() -> (c: Self)
        ensures
            c == (Color::Rgb { r: 255, g: 0, b: 0 }),
    {
        Color::Rgb { r: 255, g: 0, b: 0 }
    }

    /// Pure green.
    pub fn green() -> (c: Self)
        ensures
            c == (Color::Rgb { r: 0, g: 255, b: 0 }),
    {
        Color::Rgb { r: 0, g: 255, b: 0 }
    }

    /// Pure blue.
    pub fn blue() -> (c: Self)
        ensures
            c == (Color::Rgb { r: 0, g: 0, b: 255 }),
    {
        Color::Rgb { r: 0, g: 0, b: 255 }
    }

    /// Renders the colour as the escape sequence a terminal understands.
    pub fn terminal_format(&self) -> (s: String)
        ensures
            s@ == self.escape_sequence(),
    {
        match self {
            Color::Rgb { r, g, b } => {
                let mut s = String::from_str("\x1b[38;2;");
                proof {
                    reveal_strlit("\x1b[38;2;");
                    reveal_strlit(";");
                    reveal_strlit("m");
                }
                assert(s@ =~= rgb_prefix());
                append_decimal(&mut s, *r);
                s.append(";");
                append_decimal(&mut s, *g);
                s.append(";");
                append_decimal(&mut s, *b);
                s.append("m");
                assert(s@ =~= self.escape_sequence());
                s
            },
            Color::Default => {
                let s = String::from_str("\x1b[0m");
                proof {
                    reveal_strlit("\x1b[0m");
                }
                assert(s@ =~= reset_sequence());
                s
            },
        }
    }
}

/// The one-character string of a decimal digit.
fn digit_str(d: u8) -> (s: &'static str)
    requires
        d < 10,
    ensures
        s@ == seq![digit_char(d as nat)],
{
    proof {
        reveal_strlit("0");
        reveal_strlit("1");
        reveal_strlit("2");
        reveal_strlit("3");
        reveal_strlit("4");
        reveal_strlit("5");
        reveal_strlit("6");
        reveal_strlit("7");
        reveal_strlit("8");
        reveal_strlit("9");
    }
    let s = if d == 0 {
        "0"
    } else if d == 1 {
        "1"
    } else if d == 2 {
        "2"
    } else if d == 3 {
        "3"
    } else if d == 4 {
        "4"
    } else if d == 5 {
        "5"
    } else if d == 6 {
        "6"
    } else if d == 7 {
        "7"
    } else if d == 8 {
        "8"
    } else {
        "9"
    };
    assert(s@ =~= seq![digit_char(d as nat)]);
    s
}

/// Appends `n` in decimal to `out`.
fn append_decimal(out: &mut String, n: u8)
    ensures
        final(out)@ == old(out)@ + decimal(n as nat),
{
    let ghost before = out@;
    if n >= 100 {
        out.append(digit_str(n / 100));
    }
    if n >= 10 {
        out.append(digit_str((n / 10) % 10));
    }
    out.append(digit_str(n % 10));
    proof {
        lemma_decimal_below_thousand(n as nat);
        assert(out@ =~= before + decimal(n as nat));
    }
}

} // verus!
