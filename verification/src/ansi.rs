use vstd::prelude::*;
use vstd::string::StringExecFns;
use crate::text::{append_dec, dec_digits};

verus! {

/// One ANSI SGR (Select Graphic Rendition) attribute: a text style, a
/// foreground color or a background color.
#[derive(Clone, Copy, Debug)]
pub enum Ansi {
    Reset,
    Bold,
    Faint,
    Italic,
    Underline,
    BlinkSlow,
    BlinkRapid,
    Reverse,
    Conceal,
    CrossedOut,
    NormalIntensity,
    NotItalic,
    NotUnderline,
    NotBlink,
    NotReverse,
    NotConceal,
    NotCrossedOut,
    Black,
    Red,
    Green,
    Yellow,
    Blue,
    Magenta,
    Cyan,
    White,
    Default,
    BgBlack,
    BgRed,
    BgGreen,
    BgYellow,
    BgBlue,
    BgMagenta,
    BgCyan,
    BgWhite,
    BgDefault,
    BrightBlack,
    BrightRed,
    BrightGreen,
    BrightYellow,
    BrightBlue,
    BrightMagenta,
    BrightCyan,
    BrightWhite,
    BgBrightBlack,
    BgBrightRed,
    BgBrightGreen,
    BgBrightYellow,
    BgBrightBlue,
    BgBrightMagenta,
    BgBrightCyan,
    BgBrightWhite,
}

/// The numeric SGR code of an attribute.
pub open spec fn spec_code(a: Ansi) -> u8 {
    match a {
        Ansi::Reset => 0,
        Ansi::Bold => 1,
        Ansi::Faint => 2,
        Ansi::Italic => 3,
        Ansi::Underline => 4,
        Ansi::BlinkSlow => 5,
        Ansi::BlinkRapid => 6,
        Ansi::Reverse => 7,
        Ansi::Conceal => 8,
        Ansi::CrossedOut => 9,
        Ansi::NormalIntensity => 22,
        Ansi::NotItalic => 23,
        Ansi::NotUnderline => 24,
        Ansi::NotBlink => 25,
        Ansi::NotReverse => 27,
        Ansi::NotConceal => 28,
        Ansi::NotCrossedOut => 29,
        Ansi::Black => 30,
        Ansi::Red => 31,
        Ansi::Green => 32,
        Ansi::Yellow => 33,
        Ansi::Blue => 34,
        Ansi::Magenta => 35,
        Ansi::Cyan => 36,
        Ansi::White => 37,
        Ansi::Default => 39,
        Ansi::BgBlack => 40,
        Ansi::BgRed => 41,
        Ansi::BgGreen => 42,
        Ansi::BgYellow => 43,
        Ansi::BgBlue => 44,
        Ansi::BgMagenta => 45,
        Ansi::BgCyan => 46,
        Ansi::BgWhite => 47,
        Ansi::BgDefault => 49,
        Ansi::BrightBlack => 90,
        Ansi::BrightRed => 91,
        Ansi::BrightGreen => 92,
        Ansi::BrightYellow => 93,
        Ansi::BrightBlue => 94,
        Ansi::BrightMagenta => 95,
        Ansi::BrightCyan => 96,
        Ansi::BrightWhite => 97,
        Ansi::BgBrightBlack => 100,
        Ansi::BgBrightRed => 101,
        Ansi::BgBrightGreen => 102,
        Ansi::BgBrightYellow => 103,
        Ansi::BgBrightBlue => 104,
        Ansi::BgBrightMagenta => 105,
        Ansi::BgBrightCyan => 106,
        Ansi::BgBrightWhite => 107,
    }
}

impl Ansi {
    /// The numeric SGR code of this attribute.
    pub fn code(&self) -> (r: u8)
        ensures
            r == spec_code(*self),
    {
        match self {
            Ansi::Reset => 0,
            Ansi::Bold => 1,
            Ansi::Faint => 2,
            Ansi::Italic => 3,
            Ansi::Underline => 4,
            Ansi::BlinkSlow => 5,
            Ansi::BlinkRapid => 6,
            Ansi::Reverse => 7,
            Ansi::Conceal => 8,
            Ansi::CrossedOut => 9,
            Ansi::NormalIntensity => 22,
            Ansi::NotItalic => 23,
            Ansi::NotUnderline => 24,
            Ansi::NotBlink => 25,
            Ansi::NotReverse => 27,
            Ansi::NotConceal => 28,
            Ansi::NotCrossedOut => 29,
            Ansi::Black => 30,
            Ansi::Red => 31,
            Ansi::Green => 32,
            Ansi::Yellow => 33,
            Ansi::Blue => 34,
            Ansi::Magenta => 35,
            Ansi::Cyan => 36,
            Ansi::White => 37,
            Ansi::Default => 39,
            Ansi::BgBlack => 40,
            Ansi::BgRed => 41,
            Ansi::BgGreen => 42,
            Ansi::BgYellow => 43,
            Ansi::BgBlue => 44,
            Ansi::BgMagenta => 45,
            Ansi::BgCyan => 46,
            Ansi::BgWhite => 47,
            Ansi::BgDefault => 49,
            Ansi::BrightBlack => 90,
            Ansi::BrightRed => 91,
            Ansi::BrightGreen => 92,
            Ansi::BrightYellow => 93,
            Ansi::BrightBlue => 94,
            Ansi::BrightMagenta => 95,
            Ansi::BrightCyan => 96,
            Ansi::BrightWhite => 97,
            Ansi::BgBrightBlack => 100,
            Ansi::BgBrightRed => 101,
            Ansi::BgBrightGreen => 102,
            Ansi::BgBrightYellow => 103,
            Ansi::BgBrightBlue => 104,
            Ansi::BgBrightMagenta => 105,
            Ansi::BgBrightCyan => 106,
            Ansi::BgBrightWhite => 107,
        }
    }
}

/// The SGR codes of the given attributes, rendered in decimal and joined
/// with semicolons.
pub open spec fn spec_codes_joined(codes: Seq<Ansi>) -> Seq<char>
    decreases codes.len(),
{
    if codes.len() == 0 {
        Seq::empty()
    } else if codes.len() == 1 {
        dec_digits(spec_code(codes[0]) as nat)
    } else {
        spec_codes_joined(codes.drop_last()) + seq![';'] + dec_digits(
            spec_code(codes.last()) as nat,
        )
    }
}

/// A string wrapped in an ANSI escape that sets the given attributes, then
/// resets them.
pub open spec fn spec_ansi_wrap(s: Seq<char>, codes: Seq<Ansi>) -> Seq<char> {
    seq!['\u{1b}', '['] + spec_codes_joined(codes) + seq!['m'] + s + seq![
        '\u{1b}',
        '[',
        '0',
        'm',
    ]
}

/// A trait for applying ANSI styling to a string.
pub trait AnsiString {
    /// The characters being styled.
    spec fn text(&self) -> Seq<char>;

    /// Wraps the string with the given ANSI codes, joined with semicolons,
    /// and a trailing reset.
    fn ansi(&self, codes: &[Ansi]) -> (r: String)
        ensures
            r@ == spec_ansi_wrap(self.text(), codes@),
    ;
}

impl AnsiString for str {
    open spec fn text(&self) -> Seq<char> {
        self@
    }

    fn ansi(&self, codes: &[Ansi]) -> (r: String)
        ensures
            r@ == spec_ansi_wrap(self@, codes@),
    {
        proof {
            reveal_strlit("\u{1b}[");
            reveal_strlit(";");
            reveal_strlit("m");
            reveal_strlit("\u{1b}[0m");
        }
        let mut s = "\u{1b}[".to_owned();
        proof {
            assert(s@ =~= seq!['\u{1b}', '['] + spec_codes_joined(codes@.take(0)));
        }
        let n = codes.len();
        let mut i: usize = 0;
        while i < n
            invariant
                i <= n,
                n == codes@.len(),
                s@ == seq!['\u{1b}', '['] + spec_codes_joined(codes@.take(i as int)),
            decreases n - i,
        {
            if i > 0 {
                s.append(";");
            }
            let c = codes[i];
            let cc = c.code();
            append_dec(&mut s, cc as u128);
            proof {
                reveal_strlit(";");
                let t = codes@.take(i + 1);
                assert(t.drop_last() =~= codes@.take(i as int));
                assert(t.last() == codes@[i as int]);
                assert((cc as u128) as nat == spec_code(c) as nat);
                if i == 0 {
                    assert(t.len() == 1);
                    assert(t[0] == c);
                    assert(spec_codes_joined(t) == dec_digits(spec_code(c) as nat));
                    assert(s@ =~= seq!['\u{1b}', '['] + spec_codes_joined(t));
                } else {
                    assert(";"@ =~= seq![';']);
                    assert(spec_codes_joined(t) == spec_codes_joined(codes@.take(i as int))
                        + seq![';'] + dec_digits(spec_code(c) as nat));
                    assert(s@ =~= seq!['\u{1b}', '['] + spec_codes_joined(t));
                }
            }
            i = i + 1;
        }
        proof {
            assert(codes@.take(n as int) =~= codes@);
        }
        s.append("m");
        s.append(self);
        s.append("\u{1b}[0m");
        proof {
            assert(s@ =~= spec_ansi_wrap(self@, codes@));
        }
        s
    }
}

} // verus!
