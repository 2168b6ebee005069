//! Terminal styling: bold text and level colours under three colour capabilities.
use crate::level::Level;
use crate::text::{append, digit, nat_text, push_char};
use vstd::prelude::*;

verus! {

/// The colour capability of the output terminal.
#[derive(Clone, Copy, Debug, PartialEq, Eq, Structural)]
pub enum Colour {
    Plain,
    C16,
    C256,
}

/// The output layout.
#[derive(Clone, Copy, Debug, PartialEq, Eq, Structural)]
pub enum Format {
    Short,
    Long,
    Bare,
}

pub open spec fn esc() -> char {
    '\u{1b}'
}

/// `ESC [ n m`.
pub open spec fn sgr(n: Seq<char>) -> Seq<char> {
    seq![esc(), '['] + n + seq!['m']
}

/// The 16-colour code of each level.
pub open spec fn basic_code(l: Level) -> nat {
    match l {
        Level::Fatal => 93,
        Level::Error => 91,
        Level::Warn => 95,
        Level::Info => 96,
        Level::Debug => 94,
        Level::Trace => 92,
    }
}

/// The 256-colour code of each level.
pub open spec fn extended_code(l: Level) -> nat {
    match l {
        Level::Fatal => 190,
        Level::Error => 160,
        Level::Warn => 130,
        Level::Info => 28,
        Level::Debug => 44,
        Level::Trace => 69,
    }
}

pub open spec fn colour_prefix(l: Level, c: Colour) -> Seq<char> {
    match c {
        Colour::Plain => seq![],
        Colour::C16 => sgr(nat_text(basic_code(l))),
        Colour::C256 => sgr(seq!['3', '8', ';', '5', ';'] + nat_text(extended_code(l))),
    }
}

pub open spec fn bolded(s: Seq<char>, c: Colour) -> Seq<char> {
    if c == Colour::Plain {
        s
    } else {
        sgr(seq!['1']) + s + sgr(seq!['0'])
    }
}

/// The styled severity label: colour prefix and mnemonic, bolded as a whole.
pub open spec fn level_label(l: Level, c: Colour) -> Seq<char> {
    bolded(colour_prefix(l, c) + l.mnemonic(), c)
}

pub(crate) fn digit_char(d: u64) -> (r: char)
    requires
        d < 10,
    ensures
        r == digit(d as nat),
{
    if d == 0 { '0' } else if d == 1 { '1' } else if d == 2 { '2' } else if d == 3 { '3' }
    else if d == 4 { '4' } else if d == 5 { '5' } else if d == 6 { '6' } else if d == 7 { '7' }
    else if d == 8 { '8' } else { '9' }
}

/// Decimal text of `n`.
pub fn decimal(n: u64) -> (r: String)
    ensures
        r@ == nat_text(n as nat),
    decreases n,
{
    if n < 10 {
        let mut s = String::new();
        push_char(&mut s, digit_char(n));
        s
    } else {
        let mut s = decimal(n / 10);
        push_char(&mut s, digit_char(n % 10));
        s
    }
}

fn push_sgr(out: &mut String, n: &str)
    ensures
        final(out)@ == old(out)@ + sgr(n@),
{
    push_char(out, '\u{1b}');
    push_char(out, '[');
    append(out, n);
    push_char(out, 'm');
    assert(final(out)@ =~= old(out)@ + sgr(n@));
}

impl Level {
    /// The escape sequence that colours this level's label, empty without colour.
    pub fn ansi_colour(&self, colour: Colour) -> (r: String)
        ensures
            r@ == colour_prefix(*self, colour),
    {
        let mut s = String::new();
        match colour {
            Colour::Plain => {},
            Colour::C16 => {
                let n: u64 = match self {
                    Level::Fatal => 93,
                    Level::Error => 91,
                    Level::Warn => 95,
                    Level::Info => 96,
                    Level::Debug => 94,
                    Level::Trace => 92,
                };
                let d = decimal(n);
                push_sgr(&mut s, d.as_str());
            },
            Colour::C256 => {
                let n: u64 = match self {
                    Level::Fatal => 190,
                    Level::Error => 160,
                    Level::Warn => 130,
                    Level::Info => 28,
                    Level::Debug => 44,
                    Level::Trace => 69,
                };
                let mut d = String::new();
                push_char(&mut d, '3');
                push_char(&mut d, '8');
                push_char(&mut d, ';');
                push_char(&mut d, '5');
                push_char(&mut d, ';');
                let digits = decimal(n);
                append(&mut d, digits.as_str());
                assert(d@ =~= seq!['3', '8', ';', '5', ';'] + nat_text(n as nat));
                push_sgr(&mut s, d.as_str());
            },
        }
        assert(s@ =~= colour_prefix(*self, colour));
        s
    }
}

/// Wraps `input` in bold on and reset sequences, unless there is no colour.
pub fn bold(input: &str, colour: Colour) -> (r: String)
    ensures
        r@ == bolded(input@, colour),
{
    let fancy = !matches!(colour, Colour::Plain);
    let mut s = String::new();
    if fancy {
        push_sgr(&mut s, "1");
    }
    append(&mut s, input);
    if fancy {
        push_sgr(&mut s, "0");
    }
    proof {
        reveal_strlit("1");
        reveal_strlit("0");
    }
    assert(s@ =~= bolded(input@, colour));
    s
}

/// The styled severity label of a level.
pub fn level(bl: Level, colour: Colour) -> (r: String)
    ensures
        r@ == level_label(bl, colour),
{
    let mut s = bl.ansi_colour(colour);
    append(&mut s, bl.render());
    bold(s.as_str(), colour)
}

} // verus!
